use smartotum_controller::events::{Event, EventPayload, Events, Reading};
use smartotum_controller::lights::{SmartLight, SmartLightValue};
use smartotum_controller::messages::{
    route_event, EventStep, MessageLoop, Route, TopicUpdate, Wake,
};
use smartotum_controller::state::SharedState;

fn message(device_id: usize, status: bool) -> EventPayload {
    EventPayload {
        device_id,
        events: Events {
            bool_events: vec![Event { name: "status".to_string(), value: status }],
            periodic_bool_events: vec![],
            u8_events: vec![],
            periodic_u8_events: vec![],
            float_events: vec![],
            periodic_float_events: vec![],
        },
    }
}

fn light() -> SmartLight {
    SmartLight {
        topic_uuid: "t".to_string(),
        topic_name: "smart_light_assistants".to_string(),
        value: SmartLightValue {
            name: "n".to_string(),
            mode: "manual".to_string(),
            status: false,
            temperature: Reading { bits: 18.0f32.to_bits() },
            mac_address: "old".to_string(),
            ip_address: "i".to_string(),
            area_name: "a".to_string(),
            privacy: None,
            privacy_until: None,
        },
    }
}

fn two_devices() -> SharedState {
    let mut state = SharedState::new();
    state.update_mappings(1, "m1".to_string(), "u1".to_string());
    state.update_mappings(2, "m2".to_string(), "u2".to_string());
    state
}

fn update_of(step: EventStep) -> TopicUpdate {
    match step {
        EventStep::Update(update) => update,
        _ => panic!("a topic should be updated"),
    }
}

#[test]
fn closed_receiver_is_waited_for() {
    assert!(matches!(route_event(&SharedState::new(), None), Route::Wait { seconds: 1 }));
}

#[test]
fn message_of_an_unknown_device_is_passed_over() {
    assert!(matches!(route_event(&two_devices(), Some(&message(3, true))), Route::Skip));
}

#[test]
fn message_of_a_recorded_device_goes_to_its_topic() {
    match route_event(&two_devices(), Some(&message(2, true))) {
        Route::Update { topic_uuid, mac } => {
            assert_eq!(topic_uuid, "u2");
            assert_eq!(mac, "m2");
        }
        _ => panic!("the message was passed over"),
    }
}

#[test]
fn cancelled_message_loop_stops() {
    let step = MessageLoop::new().woken(Wake::Cancelled, &two_devices());
    assert!(matches!(step, EventStep::Stop(_)));
}

#[test]
fn nothing_received_does_not_stop_the_message_loop() {
    let state = two_devices();
    let mut messages = MessageLoop::new();
    for _ in 0..3 {
        messages = match messages.woken(Wake::Received(None), &state) {
            EventStep::Wait { seconds, messages } => {
                assert_eq!(seconds, 1);
                messages
            }
            _ => panic!("the loop should wait"),
        };
    }
    let update = update_of(messages.woken(Wake::Received(Some(message(1, true))), &state));
    assert_eq!(update.topic_uuid(), "u1");
}

#[test]
fn failed_update_does_not_stop_the_message_loop() {
    let state = two_devices();
    let update = update_of(MessageLoop::new().woken(Wake::Received(Some(message(1, true))), &state));
    let messages = update.updated::<u8>(&Err(1));
    let update = update_of(messages.woken(Wake::Received(Some(message(2, true))), &state));
    assert_eq!(update.topic_uuid(), "u2");
}

#[test]
fn updates_follow_the_order_of_messages() {
    let state = two_devices();
    let mut messages = MessageLoop::new();
    let mut written = vec![];
    let mut skipped = vec![];
    for (device_id, status) in [(2, true), (7, true), (1, false), (2, false)] {
        messages = match messages.woken(Wake::Received(Some(message(device_id, status))), &state) {
            EventStep::Update(update) => {
                assert_eq!(update.event().device_id, device_id);
                let revised = update.revise(&light());
                assert_eq!(revised.url, update.url());
                written.push((
                    update.topic_uuid().clone(),
                    revised.value.mac_address,
                    revised.value.status,
                ));
                update.updated::<u8>(&Ok(()))
            }
            EventStep::Skip { device_id, messages } => {
                skipped.push(device_id);
                messages
            }
            _ => panic!("the loop should go on"),
        };
    }
    assert_eq!(
        written,
        vec![
            ("u2".to_string(), "m2".to_string(), true),
            ("u1".to_string(), "m1".to_string(), false),
            ("u2".to_string(), "m2".to_string(), false),
        ]
    );
    assert_eq!(skipped, vec![7]);
    assert!(matches!(messages.woken(Wake::Cancelled, &state), EventStep::Stop(_)));
}

#[test]
fn update_is_written_to_its_own_topic() {
    let update =
        update_of(MessageLoop::new().woken(Wake::Received(Some(message(1, true))), &two_devices()));
    assert_eq!(
        update.url(),
        "http://localhost:3000/topic_name/smart_light_assistants/topic_uuid/u1"
    );
}

#[test]
fn fetched_topic_is_revised() {
    let update =
        update_of(MessageLoop::new().woken(Wake::Received(Some(message(1, true))), &two_devices()));
    let revised = update.fetched::<u8>(Ok(light())).unwrap();
    assert_eq!(revised.url, update.url());
    assert!(revised.value.status);
    assert_eq!(revised.value.mac_address, "m1");
}

#[test]
fn topic_that_cannot_be_fetched_is_not_written() {
    let update =
        update_of(MessageLoop::new().woken(Wake::Received(Some(message(1, true))), &two_devices()));
    assert!(matches!(update.fetched(Err("gone")), Err("gone")));
    let messages = update.updated(&Err("gone"));
    assert!(matches!(messages.woken(Wake::Received(None), &two_devices()), EventStep::Wait { .. }));
}
