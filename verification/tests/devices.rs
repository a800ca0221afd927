use smartotum_controller::devices::{find_new_devices, Device, NewDevice};
use smartotum_controller::state::SharedState;

fn device(last: u8, addresses: &[&str]) -> Device {
    Device {
        wifi_mac: Some([0, 0, 0, 0, 0, last]),
        addresses: addresses.iter().map(|address| address.to_string()).collect(),
    }
}

#[test]
fn device_is_read_with_its_first_address() {
    let found = NewDevice::from_device(5, &device(0xab, &["10.0.0.1", "10.0.0.2"])).unwrap();
    assert_eq!(found.index, 5);
    assert_eq!(found.mac, "00:00:00:00:00:ab");
    assert_eq!(found.ip, "10.0.0.1");
}

#[test]
fn device_without_an_address_cannot_be_used() {
    assert!(NewDevice::from_device(0, &device(1, &[])).is_none());
    assert!(NewDevice::from_device(
        0,
        &Device { wifi_mac: None, addresses: vec!["10.0.0.1".to_string()] }
    )
    .is_none());
}

#[test]
fn new_devices_are_the_unknown_ones_in_order() {
    let mut state = SharedState::new();
    state.update_mappings(9, "00:00:00:00:00:02".to_string(), "u".to_string());
    let devices = vec![
        device(1, &["a"]),
        device(2, &["b"]),
        device(3, &[]),
        Device { wifi_mac: None, addresses: vec!["c".to_string()] },
        device(4, &["d"]),
        device(1, &["e"]),
    ];
    let new_devices = find_new_devices(&devices, &state.existing_macs());
    let read: Vec<(usize, &str, &str)> = new_devices
        .iter()
        .map(|found| (found.index, found.mac.as_str(), found.ip.as_str()))
        .collect();
    assert_eq!(
        read,
        vec![
            (0, "00:00:00:00:00:01", "a"),
            (4, "00:00:00:00:00:04", "d"),
            (5, "00:00:00:00:00:01", "e"),
        ]
    );
}

#[test]
fn empty_scan_has_no_new_devices() {
    assert!(find_new_devices(&vec![], &SharedState::new().existing_macs()).is_empty());
}
