use smartotum_controller::text::{decimal_string, mac_to_string};

#[test]
fn mac_is_lower_case_hex() {
    assert_eq!(mac_to_string(&[0xde, 0xad, 0xbe, 0xef, 0x01, 0x9a]), "de:ad:be:ef:01:9a");
}

#[test]
fn mac_pads_small_bytes() {
    assert_eq!(mac_to_string(&[0, 1, 2, 10, 15, 16]), "00:01:02:0a:0f:10");
    assert_eq!(mac_to_string(&[255; 6]), "ff:ff:ff:ff:ff:ff");
}

#[test]
fn mac_matches_std_formatting_for_each_byte() {
    for byte in 0..=255u8 {
        let mac = [byte, 0, byte, 255, byte, 7];
        let expected = mac
            .iter()
            .map(|b| format!("{:02X}", b))
            .collect::<Vec<_>>()
            .join(":")
            .to_lowercase();
        assert_eq!(mac_to_string(&mac), expected);
    }
}

#[test]
fn mac_texts_of_different_addresses_differ() {
    assert_ne!(mac_to_string(&[1, 2, 3, 4, 5, 6]), mac_to_string(&[1, 2, 3, 4, 6, 5]));
    assert_ne!(mac_to_string(&[0x12, 0, 0, 0, 0, 0]), mac_to_string(&[0x21, 0, 0, 0, 0, 0]));
}

#[test]
fn decimal_matches_std_formatting() {
    for n in [0usize, 1, 9, 10, 11, 99, 100, 101, 1000, 65535, 4294967295] {
        assert_eq!(decimal_string(n), format!("{}", n));
    }
    assert_eq!(decimal_string(usize::MAX), format!("{}", usize::MAX));
}

#[test]
fn decimal_texts_of_different_numbers_differ() {
    assert_ne!(decimal_string(1), decimal_string(10));
    assert_ne!(decimal_string(12), decimal_string(21));
}
