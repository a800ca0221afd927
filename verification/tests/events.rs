use smartotum_controller::events::{Event, EventPayload, Events, Reading};
use smartotum_controller::lights::{extract_device_state, SmartLightValue};

fn reading(number: f32) -> Reading {
    Reading { bits: number.to_bits() }
}

fn event<T>(name: &str, value: T) -> Event<T> {
    Event { name: name.to_string(), value }
}

fn silence() -> Events {
    Events {
        bool_events: vec![],
        periodic_bool_events: vec![],
        u8_events: vec![],
        periodic_u8_events: vec![],
        float_events: vec![],
        periodic_float_events: vec![],
    }
}

fn light(status: bool, temperature: f32, mode: &str) -> SmartLightValue {
    SmartLightValue {
        name: "Luce Intelligente 1".to_string(),
        mode: mode.to_string(),
        status,
        temperature: reading(temperature),
        mac_address: "00:00:00:00:00:01".to_string(),
        ip_address: "192.168.1.7".to_string(),
        area_name: "room".to_string(),
        privacy: None,
        privacy_until: None,
    }
}

fn after(value: &SmartLightValue, events: Events) -> (bool, f32, String) {
    let (status, temperature, mode) = extract_device_state(value, &EventPayload { device_id: 0, events });
    (status, f32::from_bits(temperature.bits), mode)
}

#[test]
fn readings_compare_as_numbers_do() {
    let samples = [
        0.0f32,
        -0.0,
        1.0,
        -1.0,
        18.5,
        f32::MIN_POSITIVE,
        f32::from_bits(1),
        f32::MAX,
        f32::INFINITY,
        f32::NEG_INFINITY,
        f32::NAN,
        -f32::NAN,
        f32::from_bits(0x7f80_0001),
        f32::from_bits(0xffff_ffff),
    ];
    for a in samples {
        for b in samples {
            assert_eq!(reading(a).same_reading(reading(b)), a == b);
        }
    }
}

#[test]
fn no_events_change_nothing() {
    let value = light(true, 21.5, "ambient-light");
    assert_eq!(after(&value, silence()), (true, 21.5, "ambient-light".to_string()));
}

#[test]
fn status_follows_the_last_event() {
    let mut events = silence();
    events.bool_events = vec![event("status", true), event("status", false), event("status", true)];
    assert!(after(&light(false, 18.0, "manual"), events).0);
}

#[test]
fn periodic_events_come_after_the_others() {
    let mut events = silence();
    events.bool_events = vec![event("status", true)];
    events.periodic_bool_events = vec![event("status", false)];
    events.u8_events = vec![event("mode", 1)];
    events.periodic_u8_events = vec![event("mode", 2)];
    events.float_events = vec![event("temperature", reading(20.0))];
    events.periodic_float_events = vec![event("temperature", reading(22.0))];
    assert_eq!(
        after(&light(false, 18.0, "manual"), events),
        (false, 22.0, "ambient-light".to_string())
    );
}

#[test]
fn modes_have_their_names() {
    for (number, name) in [(0u8, "manual"), (1, "motion-detection"), (2, "ambient-light")] {
        let mut events = silence();
        events.u8_events = vec![event("mode", number)];
        assert_eq!(after(&light(false, 18.0, "other"), events).2, name);
    }
}

#[test]
fn unknown_modes_are_ignored() {
    for number in 3..=255u8 {
        let mut events = silence();
        events.u8_events = vec![event("mode", 1), event("mode", number)];
        assert_eq!(after(&light(false, 18.0, "manual"), events).2, "motion-detection");
    }
}

#[test]
fn events_with_other_names_are_ignored() {
    let mut events = silence();
    events.bool_events = vec![event("Status", true), event("", true)];
    events.u8_events = vec![event("status", 1), event("modes", 2)];
    events.float_events = vec![event("mode", reading(30.0)), event("temperature ", reading(31.0))];
    assert_eq!(after(&light(false, 18.0, "manual"), events), (false, 18.0, "manual".to_string()));
}

#[test]
fn temperature_keeps_the_sign_of_an_equal_zero() {
    let mut events = silence();
    events.float_events = vec![event("temperature", reading(-0.0))];
    let (_, temperature, _) = after(&light(false, 0.0, "manual"), events);
    assert!(temperature.is_sign_positive());
}

#[test]
fn temperature_takes_what_is_no_number() {
    let mut events = silence();
    events.float_events = vec![event("temperature", reading(f32::NAN))];
    assert!(after(&light(false, 18.0, "manual"), events).1.is_nan());

    let mut events = silence();
    events.float_events = vec![event("temperature", reading(f32::NAN)), event("temperature", reading(19.0))];
    assert_eq!(after(&light(false, 18.0, "manual"), events).1, 19.0);
}

#[test]
fn replaying_a_message_changes_nothing() {
    let message = || {
        let mut events = silence();
        events.bool_events = vec![event("status", true)];
        events.u8_events = vec![event("mode", 2), event("mode", 9)];
        events.float_events = vec![event("temperature", reading(0.0)), event("temperature", reading(-0.0))];
        events
    };
    let first = after(&light(false, 18.0, "manual"), message());
    let second = after(&light(first.0, first.1, &first.2), message());
    assert_eq!(first.0, second.0);
    assert_eq!(first.1.to_bits(), second.1.to_bits());
    assert_eq!(first.2, second.2);
}
