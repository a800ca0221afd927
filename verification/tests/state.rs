use smartotum_controller::state::SharedState;

fn text(value: &str) -> String {
    value.to_string()
}

#[test]
fn new_state_knows_nothing() {
    let state = SharedState::new();
    assert_eq!(state.get_mac(0), None);
    assert_eq!(state.get_topic_uuid("m"), None);
    assert_eq!(state.get_topic_uuid_for_device(0), None);
    assert!(!state.existing_macs().contains("m"));
}

#[test]
fn recorded_device_is_found() {
    let mut state = SharedState::new();
    state.update_mappings(3, text("m"), text("u"));
    assert_eq!(state.get_mac(3), Some(text("m")));
    assert_eq!(state.get_topic_uuid("m"), Some(text("u")));
    assert_eq!(state.get_topic_uuid_for_device(3), Some(text("u")));
    assert!(state.existing_macs().contains("m"));
}

#[test]
fn record_leaves_other_devices_alone() {
    let mut state = SharedState::new();
    state.update_mappings(0, text("m0"), text("u0"));
    state.update_mappings(1, text("m1"), text("u1"));
    assert_eq!(state.get_topic_uuid_for_device(0), Some(text("u0")));
    assert_eq!(state.get_topic_uuid_for_device(1), Some(text("u1")));
    assert_eq!(state.get_topic_uuid_for_device(2), None);
    assert_eq!(state.get_topic_uuid("u0"), None);
}

#[test]
fn later_record_stands() {
    let mut state = SharedState::new();
    state.update_mappings(0, text("m"), text("u"));
    state.update_mappings(0, text("m"), text("v"));
    assert_eq!(state.get_topic_uuid_for_device(0), Some(text("v")));
}

#[test]
fn devices_with_one_address_share_its_topic() {
    let mut state = SharedState::new();
    state.update_mappings(0, text("m"), text("u"));
    state.update_mappings(1, text("m"), text("v"));
    assert_eq!(state.get_topic_uuid_for_device(0), Some(text("v")));
    assert_eq!(state.get_topic_uuid_for_device(1), Some(text("v")));
}

#[test]
fn position_that_is_taken_over_loses_its_address_but_not_the_topic() {
    let mut state = SharedState::new();
    state.update_mappings(0, text("m"), text("u"));
    state.update_mappings(0, text("n"), text("v"));
    assert!(!state.existing_macs().contains("m"));
    assert!(state.existing_macs().contains("n"));
    assert_eq!(state.get_topic_uuid("m"), Some(text("u")));
}
