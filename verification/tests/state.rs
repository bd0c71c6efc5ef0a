use system_mqtt::home_assistant::{
    selected_field, EntityRegistrationBuilder, HomeAssistant, QoS,
};
use system_mqtt::number::{check_number, JsonNumber};
use system_mqtt::stats::{MetricValue, Stats};

fn number(text: &str) -> MetricValue {
    MetricValue::Number(JsonNumber::parse(text).unwrap())
}

fn decimal_of(value: f64) -> MetricValue {
    number(&serde_json::to_string(&value).unwrap())
}

#[test]
fn json_numbers_are_recognised() {
    for text in [
        "0", "-0", "7", "10", "12.5", "48.0", "-3.25", "0.5", "1e5", "1E5", "1e+5", "1e-5",
        "2.5e10", "-0.0", "123456789012345678901234567890", "0e0",
    ] {
        assert!(check_number(text), "{:?}", text);
        assert_eq!(JsonNumber::parse(text).unwrap().as_str(), text);
    }
}

#[test]
fn other_texts_are_no_json_numbers() {
    for text in [
        "", "-", "+1", "01", "00", "-01", "1.", ".5", "1.e5", "1e", "1e+", "1e-", "e5", "1.5.2",
        "1 ", " 1", "1,5", "0x10", "NaN", "inf", "Infinity", "null", "1e5.5", "--1", "1-", "٣",
        "[N/A]",
    ] {
        assert!(!check_number(text), "{:?}", text);
        assert!(JsonNumber::parse(text).is_none(), "{:?}", text);
    }
}

#[test]
fn decimal_numbers_are_kept_as_json_writes_them() {
    for (text, written) in [
        ("45.50", "45.50"),
        ("0", "0"),
        ("7", "7"),
        ("+1.5", "1.5"),
        ("-1.5", "-1.5"),
        (".5", "0.5"),
        ("-.5", "-0.5"),
        ("+.5", "0.5"),
        ("5.", "5"),
        ("-5.", "-5"),
        ("01.5", "1.5"),
        ("007", "7"),
        ("000", "0"),
        ("00.0", "0.0"),
        ("-0", "-0"),
        ("1e5", "1e5"),
        ("1.e5", "1e5"),
        (".5E-3", "0.5E-3"),
        ("+01.50e+07", "1.50e+07"),
        ("12.5", "12.5"),
    ] {
        let number = JsonNumber::from_decimal(text).unwrap();
        assert_eq!(number.as_str(), written, "{:?}", text);
        assert!(check_number(number.as_str()), "{:?}", text);
        let read: f64 = text.parse().unwrap();
        let kept: f64 = serde_json::from_str(number.as_str()).unwrap();
        assert_eq!(read, kept, "{:?}", text);
    }
}

#[test]
fn other_texts_are_no_decimal_numbers() {
    for text in [
        "", ".", "+", "-", "+.", "e5", ".e5", "1e", "1e+", "1.5.2", "1 ", " 1", "1,5", "0x10",
        "nan", "NaN", "inf", "-inf", "infinity", "[N/A]", "--1", "+-1", "1_000", "1e5.5", "٣",
    ] {
        assert!(JsonNumber::from_decimal(text).is_none(), "{:?}", text);
    }
}

#[test]
fn whole_numbers_are_written_in_decimal() {
    assert_eq!(JsonNumber::from_u32(0).as_str(), "0");
    assert_eq!(JsonNumber::from_u32(7).as_str(), "7");
    assert_eq!(JsonNumber::from_u32(10).as_str(), "10");
    assert_eq!(JsonNumber::from_u32(42).as_str(), "42");
    assert_eq!(JsonNumber::from_u32(1000).as_str(), "1000");
    assert_eq!(JsonNumber::from_u32(4294967295).as_str(), "4294967295");
    assert_eq!(JsonNumber::from_u32(907).clone().as_str(), "907");
}

#[test]
fn values_are_written_as_json() {
    assert_eq!(number("12.5").to_json().unwrap(), "12.5");
    assert_eq!(MetricValue::Text(String::from("charging")).to_json().unwrap(), "\"charging\"");
    assert_eq!(MetricValue::Text(String::from("a\"b")).to_json().unwrap(), "\"a\\\"b\"");
    assert_eq!(MetricValue::Text(String::from("x")).clone().to_json().unwrap(), "\"x\"");
}

#[test]
fn new_stats_are_empty() {
    let stats = Stats::new();
    assert_eq!(stats.len(), 0);
    assert!(stats.get("cpu").is_none());
    assert_eq!(stats.to_json().unwrap(), "{}");
}

#[test]
fn a_key_keeps_its_last_value_and_its_first_place() {
    let mut stats = Stats::new();
    stats.insert(String::from("cpu"), number("1"));
    stats.insert(String::from("memory"), number("2"));
    stats.insert(String::from("cpu"), number("3"));
    assert_eq!(stats.len(), 2);
    assert_eq!(stats.get("cpu").unwrap().to_json().unwrap(), "3");
    assert_eq!(stats.get("memory").unwrap().to_json().unwrap(), "2");
    assert!(stats.get("swap").is_none());
    assert_eq!(stats.to_json().unwrap(), "{\"cpu\":3,\"memory\":2}");
}

#[test]
fn keys_are_escaped_in_the_state_object() {
    let mut stats = Stats::new();
    stats.insert(String::from("a \"b\""), number("0"));
    stats.insert(String::from("state"), MetricValue::Text(String::from("full")));
    assert_eq!(stats.to_json().unwrap(), "{\"a \\\"b\\\"\":0,\"state\":\"full\"}");
}

#[test]
fn the_state_goes_out_as_one_message() {
    let mut registry = HomeAssistant::new(String::from("host"));
    for id in ["cpu", "memory"] {
        registry
            .register_entity_with_builder(EntityRegistrationBuilder::new("sensor", id))
            .unwrap();
    }
    let mut stats = Stats::new();
    stats.insert(String::from("cpu"), decimal_of(12.5));
    stats.insert(String::from("memory"), decimal_of(48.0));
    let message = registry.publish_state(&stats).unwrap().unwrap();
    assert_eq!(message.topic, "system-mqtt/host/state");
    assert_eq!(message.qos, QoS::AtLeastOnce);
    assert!(!message.retain);
    assert_eq!(message.payload, "{\"cpu\":12.5,\"memory\":48.0}");
    let body: serde_json::Value = serde_json::from_str(&message.payload).unwrap();
    let object = body.as_object().unwrap();
    assert_eq!(object.len(), 2);
    assert_eq!(object["cpu"].as_f64(), Some(12.5));
    assert_eq!(object["memory"].as_f64(), Some(48.0));
}

#[test]
fn keys_without_an_entity_are_published_with_the_rest() {
    let mut registry = HomeAssistant::new(String::from("host"));
    registry
        .register_entity_with_builder(EntityRegistrationBuilder::new("sensor", "cpu"))
        .unwrap();
    let mut stats = Stats::new();
    stats.insert(String::from("cpu"), decimal_of(1.5));
    stats.insert(String::from("Fan 1"), decimal_of(900.0));
    let message = registry.publish_state(&stats).unwrap().unwrap();
    assert_eq!(message.payload, "{\"cpu\":1.5,\"Fan 1\":900.0}");
}

#[test]
fn no_state_goes_out_before_a_registration() {
    let registry = HomeAssistant::new(String::from("host"));
    let mut stats = Stats::new();
    stats.insert(String::from("cpu"), decimal_of(12.5));
    assert!(registry.publish_state(&stats).unwrap().is_none());
}

#[test]
fn the_hub_reads_back_what_was_sampled() {
    let mut registry = HomeAssistant::new(String::from("host"));
    let sampled = [("cpu", 12.5), ("memory", 48.0), ("gpu_0-temp", -3.0), ("swap", 0.1)];
    let mut stats = Stats::new();
    for (id, value) in sampled {
        registry
            .register_entity_with_builder(EntityRegistrationBuilder::new("sensor", id))
            .unwrap();
        stats.insert(String::from(id), decimal_of(value));
    }
    stats.insert(String::from("unregistered"), decimal_of(1.0));
    let message = registry.publish_state(&stats).unwrap().unwrap();
    let state: serde_json::Value = serde_json::from_str(&message.payload).unwrap();
    assert_eq!(registry.discovery_entries().len(), sampled.len());
    for ((_, payload), (id, value)) in registry.discovery_entries().iter().zip(sampled) {
        let announced: serde_json::Value =
            serde_json::from_str(&payload.to_json().unwrap()).unwrap();
        let template = announced["value_template"].as_str().unwrap();
        let field = selected_field(template).unwrap();
        assert_eq!(field, id);
        assert_eq!(state[field.as_str()].as_f64(), Some(value));
    }
}
