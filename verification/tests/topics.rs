use serde_json::Value;
use smartotum_controller::topics::{
    fetch_first_room_uuid, first_room_uuid, read_reply, reply_names_topic, rooms_url, smart_lights_url, topic_exists,
    topic_url, DhtError, RoomTopic, Topic,
};

fn json(text: &str) -> Value {
    serde_json::from_str(text).unwrap()
}

fn topic(uuid: &str, value: &str) -> Topic {
    Topic { topic_uuid: uuid.to_string(), topic_name: "domo_room".to_string(), value: json(value) }
}

#[test]
fn addresses_are_those_of_the_hash_table() {
    assert_eq!(
        topic_url("abc-1"),
        "http://localhost:3000/topic_name/smart_light_assistants/topic_uuid/abc-1"
    );
    assert_eq!(smart_lights_url(), "http://localhost:3000/topic_name/smart_light_assistants");
    assert_eq!(rooms_url(), "http://localhost:3000/topic_name/domo_room");
}

#[test]
fn topic_exists_if_the_reply_names_it() {
    assert!(topic_exists(Some(br#"{"topic_uuid":"abc","value":{}}"#)));
    assert!(topic_exists(Some(br#"{"topic_uuid":""}"#)));
}

#[test]
fn topic_does_not_exist_without_its_name() {
    assert!(!topic_exists(Some(b"{}")));
    assert!(!topic_exists(Some(br#"{"topic_uuid":7}"#)));
    assert!(!topic_exists(Some(br#"{"topic_uuid":null}"#)));
    assert!(!topic_exists(Some(br#"{"value":{"topic_uuid":"abc"}}"#)));
    assert!(!topic_exists(Some(br#"["topic_uuid"]"#)));
    assert!(!topic_exists(Some(br#""topic_uuid""#)));
}

#[test]
fn topic_does_not_exist_without_a_json_reply() {
    assert!(!topic_exists(None));
    assert!(!topic_exists(Some(b"")));
    assert!(!topic_exists(Some(b"not found")));
    assert!(!topic_exists(Some(br#"{"topic_uuid":"abc"} trailing"#)));
}

#[test]
fn reply_is_read_as_a_value() {
    assert!(reply_names_topic(&json(r#"{"topic_uuid":"abc"}"#)));
    assert!(!reply_names_topic(&json(r#"{"topic":"abc"}"#)));
}

#[test]
fn first_room_has_the_place_zero() {
    let topics = vec![
        topic("a", r#"{"order_id":1}"#),
        topic("b", r#"{"order_id":0}"#),
        topic("c", r#"{"order_id":0}"#),
    ];
    assert_eq!(fetch_first_room_uuid(&topics).unwrap(), "b");
}

#[test]
fn rooms_without_a_natural_place_are_passed_over() {
    let topics = vec![
        topic("a", r#"{"order_id":"0"}"#),
        topic("b", r#"{"order_id":-1}"#),
        topic("c", r#"{"order_id":0.0}"#),
        topic("d", r#"{"order_id":null}"#),
        topic("e", r#"{}"#),
        topic("f", r#"[0]"#),
        topic("g", r#"{"order_id":0}"#),
    ];
    assert_eq!(fetch_first_room_uuid(&topics).unwrap(), "g");
}

#[test]
fn no_room_is_an_error() {
    assert_eq!(fetch_first_room_uuid(&vec![]), Err(DhtError::NoFirstRoom));
    assert_eq!(fetch_first_room_uuid(&vec![topic("a", r#"{"order_id":3}"#)]), Err(DhtError::NoFirstRoom));
    assert_eq!(DhtError::NoFirstRoom.message(), "No topic with order_id == 0 found");
}

#[test]
fn room_is_read_from_its_topic() {
    let room = topic("a", r#"{"order_id":18446744073709551615}"#).room();
    assert_eq!(room.topic_uuid, "a");
    assert_eq!(room.order_id, Some(u64::MAX));
}

#[test]
fn first_of_the_rooms_read() {
    let rooms = vec![
        RoomTopic { topic_uuid: "a".to_string(), order_id: None },
        RoomTopic { topic_uuid: "b".to_string(), order_id: Some(0) },
    ];
    assert_eq!(first_room_uuid(&rooms).unwrap(), "b");
}

#[test]
fn topics_have_different_addresses() {
    assert_ne!(topic_url("a"), topic_url("b"));
    assert_ne!(topic_url(""), topic_url("/"));
}

#[test]
fn reply_is_read_or_refused() {
    assert_eq!(read_reply(br#"{"topic_uuid":"abc"}"#).unwrap(), true);
    assert_eq!(read_reply(br#"{"topic_uuid":1}"#).unwrap(), false);
    assert!(read_reply(b"oops").is_err());
}
