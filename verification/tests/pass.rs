use smartotum_controller::devices::{Device, NewDevice};
use smartotum_controller::events::Reading;
use smartotum_controller::lights::{SmartLight, SmartLightValue};
use smartotum_controller::pass::{
    get_or_create_topic_uuid, process_new_devices, reconcile_existing_devices, PassStep,
    ReceiverRestart, TopicChoice, EVENT_BUFFER_SIZE,
};
use smartotum_controller::state::SharedState;

fn device(last: u8) -> Device {
    Device { wifi_mac: Some([0, 0, 0, 0, 0, last]), addresses: vec![format!("10.0.0.{}", last)] }
}

fn mac(last: u8) -> String {
    format!("00:00:00:00:00:{:02x}", last)
}

fn light(topic_uuid: &str, mac: &str) -> SmartLight {
    SmartLight {
        topic_uuid: topic_uuid.to_string(),
        topic_name: "smart_light_assistants".to_string(),
        value: SmartLightValue {
            name: "n".to_string(),
            mode: "manual".to_string(),
            status: false,
            temperature: Reading { bits: 18.0f32.to_bits() },
            mac_address: mac.to_string(),
            ip_address: "i".to_string(),
            area_name: "a".to_string(),
            privacy: None,
            privacy_until: None,
        },
    }
}

fn is_random_uuid(text: &str) -> bool {
    let bytes = text.as_bytes();
    bytes.len() == 36
        && bytes.iter().enumerate().all(|(i, b)| match i {
            8 | 13 | 18 | 23 => *b == b'-',
            14 => *b == b'4',
            19 => matches!(*b, b'8' | b'9' | b'a' | b'b'),
            _ => matches!(*b, b'0'..=b'9' | b'a'..=b'f'),
        })
}

#[test]
fn pass_without_devices_is_over() {
    let state = SharedState::new();
    assert!(matches!(process_new_devices(vec![], &state), PassStep::Finish));
}

#[test]
fn pass_over_unusable_devices_is_over() {
    let state = SharedState::new();
    let devices = vec![
        Device { wifi_mac: None, addresses: vec!["a".to_string()] },
        Device { wifi_mac: Some([1; 6]), addresses: vec![] },
    ];
    assert!(matches!(process_new_devices(devices, &state), PassStep::Finish));
}

#[test]
fn new_device_gets_the_topic_of_its_light() {
    let mut state = SharedState::new();
    let listing = match process_new_devices(vec![device(1)], &state) {
        PassStep::List(listing) => listing,
        _ => panic!("the lights should be listed"),
    };
    assert_eq!(listing.new_devices().len(), 1);
    assert_eq!(listing.new_devices()[0].ip, "10.0.0.1");
    let step = listing.answered::<u8>(Ok(vec![light("u", &mac(1))]), &mut state);
    assert!(matches!(step, Ok(PassStep::Restart(_))));
    assert_eq!(state.get_topic_uuid_for_device(0), Some("u".to_string()));
    assert_eq!(state.get_mac(0), Some(mac(1)));
}

#[test]
fn pass_ends_if_the_lights_cannot_be_listed() {
    let mut state = SharedState::new();
    let listing = match process_new_devices(vec![device(1)], &state) {
        PassStep::List(listing) => listing,
        _ => panic!("the lights should be listed"),
    };
    assert!(matches!(listing.answered::<u8>(Err(7), &mut state), Err(7)));
    assert_eq!(state.get_mac(0), None);
}

#[test]
fn new_device_without_a_light_gets_a_created_topic() {
    let mut state = SharedState::new();
    let listing = match process_new_devices(vec![device(1), device(2)], &state) {
        PassStep::List(listing) => listing,
        _ => panic!("the lights should be listed"),
    };
    let creation = match listing.answered::<u8>(Ok(vec![light("u", &mac(1))]), &mut state) {
        Ok(PassStep::Create(creation)) => creation,
        _ => panic!("a topic should be created"),
    };
    assert_eq!(state.get_topic_uuid_for_device(0), Some("u".to_string()));
    assert_eq!(state.get_topic_uuid_for_device(1), None);
    assert_eq!(creation.device().mac, mac(2));
    let topic_uuid = creation.topic_uuid().clone();
    assert!(is_random_uuid(&topic_uuid));

    let post = creation.post("kitchen".to_string());
    assert_eq!(
        post.url,
        format!("http://localhost:3000/topic_name/smart_light_assistants/topic_uuid/{}", topic_uuid)
    );
    assert_eq!(post.payload.get("name").unwrap().as_str(), Some("Luce Intelligente 2"));
    assert_eq!(post.payload.get("mac_address").unwrap().as_str(), Some(mac(2).as_str()));
    assert_eq!(post.payload.get("ip_address").unwrap().as_str(), Some("10.0.0.2"));
    assert_eq!(post.payload.get("area_name").unwrap().as_str(), Some("kitchen"));

    assert!(matches!(creation.answered(true, &mut state), PassStep::Restart(_)));
    assert_eq!(state.get_topic_uuid_for_device(1), Some(topic_uuid));
}

#[test]
fn failed_creation_is_passed_over_and_tried_again() {
    let mut state = SharedState::new();
    let devices = || vec![device(1), device(2)];
    let listing = match process_new_devices(devices(), &state) {
        PassStep::List(listing) => listing,
        _ => panic!("the lights should be listed"),
    };
    let first = match listing.answered::<u8>(Ok(vec![]), &mut state) {
        Ok(PassStep::Create(creation)) => creation,
        _ => panic!("a topic should be created"),
    };
    assert_eq!(first.device().index, 0);
    let second = match first.answered(false, &mut state) {
        PassStep::Create(creation) => creation,
        _ => panic!("a topic should be created"),
    };
    assert_eq!(state.get_mac(0), None);
    assert_eq!(second.device().index, 1);
    assert!(matches!(second.answered(true, &mut state), PassStep::Restart(_)));
    assert_eq!(state.get_mac(1), Some(mac(2)));

    let check = match process_new_devices(devices(), &state) {
        PassStep::Check(check) => check,
        _ => panic!("the known topic should be checked"),
    };
    let listing = match check.answered(true, &state) {
        PassStep::List(listing) => listing,
        _ => panic!("the lights should be listed"),
    };
    assert_eq!(listing.new_devices().len(), 1);
    assert_eq!(listing.new_devices()[0].mac, mac(1));
}

#[test]
fn known_topics_are_checked_in_order() {
    let mut state = SharedState::new();
    state.update_mappings(0, mac(1), "u1".to_string());
    state.update_mappings(2, mac(3), "u3".to_string());
    let devices = vec![device(1), Device { wifi_mac: None, addresses: vec![] }, device(3)];
    let check = match process_new_devices(devices, &state) {
        PassStep::Check(check) => check,
        _ => panic!("the first topic should be checked"),
    };
    assert_eq!(check.topic_uuid(), "u1");
    assert_eq!(check.device().mac, mac(1));
    assert_eq!(check.url(), "http://localhost:3000/topic_name/smart_light_assistants/topic_uuid/u1");
    let check = match check.keep(&state) {
        PassStep::Check(check) => check,
        _ => panic!("the second topic should be checked"),
    };
    assert_eq!(check.topic_uuid(), "u3");
    assert!(matches!(check.answered(true, &state), PassStep::Finish));
    assert_eq!(state.get_topic_uuid(&mac(1)), Some("u1".to_string()));
    assert_eq!(state.get_topic_uuid(&mac(3)), Some("u3".to_string()));
}

#[test]
fn lost_topic_is_replaced() {
    let mut state = SharedState::new();
    state.update_mappings(0, mac(1), "u1".to_string());
    let check = match process_new_devices(vec![device(1)], &state) {
        PassStep::Check(check) => check,
        _ => panic!("the topic should be checked"),
    };
    let repair = match check.answered(false, &state) {
        PassStep::Repair(repair) => repair,
        _ => panic!("the topic should be replaced"),
    };
    let topic_uuid = repair.topic_uuid().clone();
    assert!(is_random_uuid(&topic_uuid));
    assert_eq!(state.get_topic_uuid_for_device(0), Some("u1".to_string()));
    let post = repair.post("kitchen".to_string());
    assert_eq!(
        post.url,
        format!("http://localhost:3000/topic_name/smart_light_assistants/topic_uuid/{}", topic_uuid)
    );
    assert_eq!(post.payload.get("name").unwrap().as_str(), Some("Luce Intelligente 1"));
    assert!(matches!(repair.answered::<u8>(Ok(()), &mut state), Ok(PassStep::Finish)));
    assert_eq!(state.get_topic_uuid_for_device(0), Some(topic_uuid));
}

#[test]
fn lost_topic_is_replaced_by_the_given_one() {
    let mut state = SharedState::new();
    state.update_mappings(7, mac(1), "u1".to_string());
    let check = match reconcile_existing_devices(vec![device(9), device(1)], 1, &state) {
        PassStep::Check(check) => check,
        _ => panic!("the topic should be checked"),
    };
    let repair = match check.replace("u2".to_string()) {
        PassStep::Repair(repair) => repair,
        _ => panic!("the topic should be replaced"),
    };
    assert_eq!(repair.topic_uuid(), "u2");
    let listing = match repair.answered::<u8>(Ok(()), &mut state) {
        Ok(PassStep::List(listing)) => listing,
        _ => panic!("the lights should be listed"),
    };
    assert_eq!(listing.new_devices().len(), 1);
    assert_eq!(listing.new_devices()[0].mac, mac(9));
    assert_eq!(state.get_mac(1), Some(mac(1)));
    assert_eq!(state.get_topic_uuid(&mac(1)), Some("u2".to_string()));
    assert_eq!(state.get_topic_uuid_for_device(7), Some("u2".to_string()));
}

#[test]
fn failed_repair_ends_the_pass() {
    let mut state = SharedState::new();
    state.update_mappings(0, mac(1), "u1".to_string());
    let check = match process_new_devices(vec![device(1), device(2)], &state) {
        PassStep::Check(check) => check,
        _ => panic!("the topic should be checked"),
    };
    let repair = match check.answered(false, &state) {
        PassStep::Repair(repair) => repair,
        _ => panic!("the topic should be replaced"),
    };
    assert!(matches!(repair.answered(Err("refused"), &mut state), Err("refused")));
    assert_eq!(state.get_topic_uuid_for_device(0), Some("u1".to_string()));
    assert_eq!(state.get_mac(1), None);
}

#[test]
fn device_whose_position_was_taken_is_found_again() {
    let mut state = SharedState::new();
    state.update_mappings(0, mac(1), "u1".to_string());
    let devices = || vec![device(2), device(1)];
    let check = match process_new_devices(devices(), &state) {
        PassStep::Check(check) => check,
        _ => panic!("the topic should be checked"),
    };
    let listing = match check.answered(true, &state) {
        PassStep::List(listing) => listing,
        _ => panic!("the lights should be listed"),
    };
    let step = listing.answered::<u8>(Ok(vec![light("u2", &mac(2))]), &mut state);
    assert!(matches!(step, Ok(PassStep::Restart(_))));
    assert_eq!(state.get_mac(0), Some(mac(2)));
    assert!(!state.existing_macs().contains(&mac(1)));

    let mut step = process_new_devices(devices(), &state);
    for expected in ["u2", "u1"] {
        step = match step {
            PassStep::Check(check) => {
                assert_eq!(check.topic_uuid(), expected);
                check.answered(true, &state)
            }
            _ => panic!("the topic should be checked"),
        };
    }
    match step {
        PassStep::List(listing) => assert_eq!(listing.new_devices()[0].mac, mac(1)),
        _ => panic!("the lights should be listed"),
    }
}

#[test]
fn topic_of_a_listed_light_is_chosen() {
    let new_device = NewDevice { index: 0, mac: mac(1), ip: "i".to_string() };
    let lights = vec![light("a", &mac(2)), light("b", &mac(1)), light("c", &mac(1))];
    match get_or_create_topic_uuid(&new_device, &lights) {
        TopicChoice::Listed(topic_uuid) => assert_eq!(topic_uuid, "b"),
        TopicChoice::Created(_) => panic!("the light is listed"),
    }
}

#[test]
fn random_topics_are_chosen_apart() {
    let new_device = NewDevice { index: 0, mac: mac(1), ip: "i".to_string() };
    let choose = || match get_or_create_topic_uuid(&new_device, &vec![]) {
        TopicChoice::Created(topic_uuid) => topic_uuid,
        TopicChoice::Listed(_) => panic!("no light is listed"),
    };
    let (first, second) = (choose(), choose());
    assert!(is_random_uuid(&first));
    assert!(is_random_uuid(&second));
    assert_ne!(first, second);
}

#[test]
fn pass_over_known_devices_changes_nothing() {
    let mut state = SharedState::new();
    state.update_mappings(0, mac(1), "u1".to_string());
    state.update_mappings(2, mac(3), "u3".to_string());
    let devices = vec![device(1), Device { wifi_mac: None, addresses: vec![] }, device(3)];
    let mut step = process_new_devices(devices, &state);
    let mut checked = vec![];
    while let PassStep::Check(check) = step {
        checked.push(check.topic_uuid().clone());
        step = check.answered(true, &state);
    }
    assert!(matches!(step, PassStep::Finish));
    assert_eq!(checked, vec!["u1".to_string(), "u3".to_string()]);
    assert_eq!(state.get_mac(0), Some(mac(1)));
    assert_eq!(state.get_mac(1), None);
    assert_eq!(state.get_mac(2), Some(mac(3)));
    assert_eq!(state.get_topic_uuid_for_device(0), Some("u1".to_string()));
    assert_eq!(state.get_topic_uuid_for_device(2), Some("u3".to_string()));
}

#[test]
fn repair_records_the_place_of_the_device_alone() {
    let mut state = SharedState::new();
    state.update_mappings(0, mac(1), "u1".to_string());
    state.update_mappings(5, mac(8), "u8".to_string());
    let check = match process_new_devices(vec![device(1)], &state) {
        PassStep::Check(check) => check,
        _ => panic!("the topic should be checked"),
    };
    let repair = match check.replace("v1".to_string()) {
        PassStep::Repair(repair) => repair,
        _ => panic!("the topic should be replaced"),
    };
    assert!(matches!(repair.answered::<u8>(Ok(()), &mut state), Ok(PassStep::Finish)));
    assert_eq!(state.get_mac(0), Some(mac(1)));
    assert_eq!(state.get_mac(5), Some(mac(8)));
    assert_eq!(state.get_topic_uuid_for_device(5), Some("u8".to_string()));
}

fn restart() -> ReceiverRestart {
    let mut state = SharedState::new();
    let listing = match process_new_devices(vec![device(1)], &state) {
        PassStep::List(listing) => listing,
        _ => panic!("the lights should be listed"),
    };
    match listing.answered::<u8>(Ok(vec![light("u", &mac(1))]), &mut state) {
        Ok(PassStep::Restart(restart)) => restart,
        _ => panic!("the receivers should be started again"),
    }
}

#[test]
fn receivers_hold_back_messages() {
    assert_eq!(EVENT_BUFFER_SIZE, 100);
    assert_eq!(restart().buffer_size(), 100);
}

#[test]
fn receiver_is_the_new_one_or_none() {
    assert_eq!(restart().receiver_after::<u8, &str>(Ok(7)), Some(7));
    assert_eq!(restart().receiver_after::<u8, &str>(Err("busy")), None);
}

#[test]
fn room_decides_whether_a_topic_is_created() {
    let mut state = SharedState::new();
    let listing = match process_new_devices(vec![device(1)], &state) {
        PassStep::List(listing) => listing,
        _ => panic!("the lights should be listed"),
    };
    let creation = match listing.answered::<u8>(Ok(vec![]), &mut state) {
        Ok(PassStep::Create(creation)) => creation,
        _ => panic!("a topic should be created"),
    };
    assert!(matches!(creation.room_found(Err("no room")), Err("no room")));
    let post = creation.room_found::<u8>(Ok("kitchen".to_string())).unwrap();
    assert_eq!(post.payload, creation.post("kitchen".to_string()).payload);
    assert_eq!(post.url, creation.post("kitchen".to_string()).url);
}

#[test]
fn room_decides_whether_a_topic_is_replaced() {
    let mut state = SharedState::new();
    state.update_mappings(0, mac(1), "u1".to_string());
    let check = match process_new_devices(vec![device(1)], &state) {
        PassStep::Check(check) => check,
        _ => panic!("the topic should be checked"),
    };
    let repair = match check.replace("u2".to_string()) {
        PassStep::Repair(repair) => repair,
        _ => panic!("the topic should be replaced"),
    };
    assert!(matches!(repair.room_found(Err("no room")), Err("no room")));
    let post = repair.room_found::<u8>(Ok("kitchen".to_string())).unwrap();
    assert_eq!(post.url, "http://localhost:3000/topic_name/smart_light_assistants/topic_uuid/u2");
    assert_eq!(post.payload.get("area_name").unwrap().as_str(), Some("kitchen"));
}
