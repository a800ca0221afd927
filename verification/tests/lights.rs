use serde_json::Value;
use smartotum_controller::events::{Event, EventPayload, Events, Reading};
use smartotum_controller::lights::{
    create_smart_light_topic, find_light, find_topic, light_payload, update_smart_light_topic, SmartLight, SmartLightValue,
};

fn json(text: &str) -> Value {
    serde_json::from_str(text).unwrap()
}

fn reading(number: f32) -> Reading {
    Reading { bits: number.to_bits() }
}

fn light(topic_uuid: &str, mac: &str) -> SmartLight {
    SmartLight {
        topic_uuid: topic_uuid.to_string(),
        topic_name: "smart_light_assistants".to_string(),
        value: SmartLightValue {
            name: "Luce Intelligente 1".to_string(),
            mode: "manual".to_string(),
            status: false,
            temperature: reading(18.0),
            mac_address: mac.to_string(),
            ip_address: "192.168.1.7".to_string(),
            area_name: "room".to_string(),
            privacy: None,
            privacy_until: None,
        },
    }
}

fn message() -> EventPayload {
    EventPayload {
        device_id: 4,
        events: Events {
            bool_events: vec![Event { name: "status".to_string(), value: true }],
            periodic_bool_events: vec![],
            u8_events: vec![],
            periodic_u8_events: vec![Event { name: "mode".to_string(), value: 1 }],
            float_events: vec![Event { name: "temperature".to_string(), value: reading(20.5) }],
            periodic_float_events: vec![],
        },
    }
}

#[test]
fn update_writes_the_new_state_to_the_topic() {
    let mut topic = light("other", "old");
    topic.value.privacy = Some(true);
    topic.value.privacy_until = Some("tomorrow".to_string());
    let update = update_smart_light_topic(&topic, "uuid", "aa:bb", &message());
    assert_eq!(update.url, "http://localhost:3000/topic_name/smart_light_assistants/topic_uuid/uuid");
    assert!(update.value.status);
    assert_eq!(update.value.mode, "motion-detection");
    assert_eq!(update.value.temperature.bits, 20.5f32.to_bits());
    assert_eq!(update.value.mac_address, "aa:bb");
    assert_eq!(update.value.name, "Luce Intelligente 1");
    assert_eq!(update.value.ip_address, "192.168.1.7");
    assert_eq!(update.value.area_name, "room");
    assert_eq!(update.value.privacy, Some(true));
    assert_eq!(update.value.privacy_until, Some("tomorrow".to_string()));
}

#[test]
fn update_of_an_updated_topic_changes_nothing() {
    let topic = light("uuid", "old");
    let once = update_smart_light_topic(&topic, "uuid", "aa:bb", &message());
    let again = SmartLight {
        topic_uuid: "uuid".to_string(),
        topic_name: "smart_light_assistants".to_string(),
        value: once.value,
    };
    let twice = update_smart_light_topic(&again, "uuid", "aa:bb", &message());
    let temperature = Value::from(20.5f32);
    assert_eq!(
        light_payload(&again.value, temperature.clone()),
        light_payload(&twice.value, temperature)
    );
}

#[test]
fn payload_leaves_out_what_is_not_known() {
    let payload = light_payload(&light("uuid", "aa:bb").value, Value::from(18.0f32));
    assert_eq!(
        payload,
        json(
            r#"{"name":"Luce Intelligente 1","mode":"manual","status":false,"temperature":18.0,
                "mac_address":"aa:bb","ip_address":"192.168.1.7","area_name":"room"}"#
        )
    );
}

#[test]
fn payload_holds_what_is_known_of_privacy() {
    let mut value = light("uuid", "aa:bb").value;
    value.privacy = Some(false);
    value.privacy_until = Some("2026-01-01".to_string());
    value.status = true;
    assert_eq!(
        light_payload(&value, Value::Null),
        json(
            r#"{"name":"Luce Intelligente 1","mode":"manual","status":true,"temperature":null,
                "mac_address":"aa:bb","ip_address":"192.168.1.7","area_name":"room",
                "privacy":false,"privacy_until":"2026-01-01"}"#
        )
    );
}

#[test]
fn payloads_of_different_lights_differ() {
    let a = light("uuid", "aa:bb").value;
    let mut b = light("uuid", "aa:bb").value;
    b.privacy = Some(false);
    assert_ne!(light_payload(&a, Value::Null), light_payload(&b, Value::Null));
    assert_ne!(
        light_payload(&a, Value::Null),
        light_payload(&light("uuid", "aa:bc").value, Value::Null)
    );
}

#[test]
fn new_topic_starts_with_defaults() {
    let post = create_smart_light_topic(0, "uuid", "aa:bb", "10.0.0.2".to_string(), "kitchen".to_string());
    assert_eq!(post.url, "http://localhost:3000/topic_name/smart_light_assistants/topic_uuid/uuid");
    assert_eq!(
        post.payload,
        json(
            r#"{"name":"Luce Intelligente 1","mode":"manual","status":false,"temperature":18,
                "mac_address":"aa:bb","ip_address":"10.0.0.2","area_name":"kitchen"}"#
        )
    );
}

#[test]
fn new_topics_are_counted_from_one() {
    let name = |index: usize| {
        let post = create_smart_light_topic(index, "u", "m", "i".to_string(), "a".to_string());
        post.payload.get("name").unwrap().as_str().unwrap().to_string()
    };
    assert_eq!(name(9), "Luce Intelligente 10");
    assert_eq!(name(41), "Luce Intelligente 42");
    assert_eq!(name(usize::MAX - 1), format!("Luce Intelligente {}", usize::MAX));
}

#[test]
fn topic_is_found_by_address() {
    let lights = vec![light("a", "m1"), light("b", "m2"), light("c", "m2")];
    assert_eq!(find_topic(&lights, &"m2".to_string()), Some("b".to_string()));
    assert_eq!(find_topic(&lights, &"m1".to_string()), Some("a".to_string()));
    assert_eq!(find_topic(&lights, &"M1".to_string()), None);
    assert_eq!(find_topic(&vec![], &"m1".to_string()), None);
}

#[test]
fn light_is_found_by_address() {
    let mut lights = vec![light("a", "m1"), light("b", "m2"), light("c", "m2")];
    lights[1].value.name = "second".to_string();
    assert_eq!(find_light(&lights, &"m2".to_string()).unwrap().value.name, "second");
    assert!(find_light(&lights, &"m3".to_string()).is_none());
}

#[test]
fn update_is_sent_with_its_payload() {
    let topic = light("uuid", "old");
    let update = update_smart_light_topic(&topic, "uuid", "aa:bb", &message());
    let payload = light_payload(&update.value, Value::from(20.5f32));
    let url = update.url.clone();
    let post = update.post(Value::from(20.5f32));
    assert_eq!(post.url, url);
    assert_eq!(post.payload, payload);
    assert_eq!(
        post.payload,
        json(
            r#"{"name":"Luce Intelligente 1","mode":"motion-detection","status":true,
                "temperature":20.5,"mac_address":"aa:bb","ip_address":"192.168.1.7",
                "area_name":"room"}"#
        )
    );
}
