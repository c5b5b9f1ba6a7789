use attentio::device::ble::{
    device_from_ble, is_attentio_advert, is_bond_mismatch, is_mac_address, match_outcome,
    not_found_error, paired_from_output, parse_target, selector_for_index, selector_from_flag,
    selector_matches, BleDeviceInfo, BleSelector, MatchOutcome,
};
use attentio::device::discovery::{AttentioDevice, DeviceMode, Transport};
use attentio::error::AttentioError;

fn sel_text(s: &BleSelector) -> String {
    s.description()
}

#[test]
fn mac_addresses() {
    assert!(is_mac_address("AA:BB:CC:dd:ee:01"));
    assert!(!is_mac_address("AA:BB:CC:DD:EE"));
    assert!(!is_mac_address("AA-BB-CC-DD-EE-FF"));
    assert!(!is_mac_address("AA:BB:CC:DD:EE:FG"));
    assert!(!is_mac_address("AAA:B:CC:DD:EE:FF"));
}

#[test]
fn selector_classification() {
    assert!(matches!(parse_target(None), BleSelector::Any));
    assert!(matches!(parse_target(Some("")), BleSelector::Any));
    assert!(matches!(parse_target(Some("2")), BleSelector::Index(2)));
    assert!(matches!(parse_target(Some("0")), BleSelector::Name(ref n) if n == "0"));
    assert!(matches!(parse_target(Some("AA:BB:CC:DD:EE:FF")), BleSelector::Address(ref a) if a == "AA:BB:CC:DD:EE:FF"));
    assert!(matches!(parse_target(Some("Lamp")), BleSelector::Name(ref n) if n == "Lamp"));
    assert!(selector_from_flag(None).is_none());
    assert!(matches!(selector_from_flag(Some("")), Some(BleSelector::Any)));
}

#[test]
fn selector_descriptions() {
    assert_eq!(sel_text(&BleSelector::Any), "AttentioLight-1 (any)");
    assert_eq!(sel_text(&BleSelector::Name("Lamp".to_string())), "name 'Lamp'");
    assert_eq!(sel_text(&BleSelector::Address("AA".to_string())), "address 'AA'");
    assert_eq!(sel_text(&BleSelector::Index(3)), "index 3");
    match not_found_error(&BleSelector::Index(3)) {
        AttentioError::BleNotFound { selector } => assert_eq!(selector, "index 3"),
        other => panic!("unexpected {:?}", other),
    }
}

#[test]
fn matching_advertisements() {
    assert!(selector_matches(&BleSelector::Any, Some("AttentioLight-1"), false, "x"));
    assert!(selector_matches(&BleSelector::Any, None, true, "x"));
    assert!(!selector_matches(&BleSelector::Any, Some("Other"), false, "x"));
    assert!(selector_matches(&BleSelector::Name("Lamp".to_string()), Some("Lamp"), false, "x"));
    assert!(!selector_matches(&BleSelector::Name("Lamp".to_string()), None, true, "x"));
    assert!(selector_matches(
        &BleSelector::Address("aa:bb:cc:dd:ee:ff".to_string()),
        None,
        false,
        "AA:BB:CC:DD:EE:FF"
    ));
    assert!(is_attentio_advert(true, None));
    assert!(is_attentio_advert(false, Some("AttentioLight-1")));
    assert!(!is_attentio_advert(false, Some("Phone")));
}

#[test]
fn poll_outcomes() {
    assert!(matches!(match_outcome(&[]), MatchOutcome::NoneYet));
    assert!(matches!(match_outcome(&["A".to_string()]), MatchOutcome::One));
    match match_outcome(&["A".to_string(), "B".to_string()]) {
        MatchOutcome::Ambiguous(AttentioError::Ble(m)) => assert_eq!(
            m,
            "multiple BLE devices found (A, B) \u{2014} specify --ble <name|address>"
        ),
        other => panic!("unexpected {:?}", other),
    }
}

#[test]
fn bond_mismatch_signature() {
    assert!(is_bond_mismatch(&AttentioError::Ble("subscribe timed out after 10s".to_string())));
    assert!(is_bond_mismatch(&AttentioError::Ble("the device dropped the link during service discovery".to_string())));
    assert!(!is_bond_mismatch(&AttentioError::Ble("no Bluetooth adapter found".to_string())));
    assert!(!is_bond_mismatch(&AttentioError::Other("subscribe timed out".to_string())));
    assert!(paired_from_output("Device AA\n\tPaired: yes\n"));
    assert!(!paired_from_output("\tPaired: no\n"));
}

fn usb_device(serial: &str) -> AttentioDevice {
    AttentioDevice {
        serial: serial.to_string(),
        device_type: None,
        product: None,
        mode: DeviceMode::Normal,
        usb_location: None,
        cdc0: None,
        cdc1: None,
        single_cdc: None,
        transport: Transport::Usb,
        ble_address: None,
        paired: None,
    }
}

#[test]
fn index_resolution_and_listing() {
    let ble = device_from_ble(
        BleDeviceInfo { address: "AA:BB:CC:DD:EE:FF".to_string(), name: Some("Lamp".to_string()) },
        Some(true),
    );
    assert_eq!(ble.serial, "AA:BB:CC:DD:EE:FF");
    assert_eq!(ble.device_type.as_deref(), Some("AttentioLight-1 (BLE)"));
    assert_eq!(ble.transport, Transport::Ble);
    assert_eq!(ble.paired, Some(true));
    let devices = vec![usb_device("U1"), ble];
    assert!(matches!(selector_for_index(&devices, 2), Ok(BleSelector::Address(ref a)) if a == "AA:BB:CC:DD:EE:FF"));
    match selector_for_index(&devices, 1) {
        Err(AttentioError::Ble(m)) => assert_eq!(m, "device #1 is a USB device \u{2014} omit --ble, or use --device 1"),
        other => panic!("unexpected {:?}", other),
    }
    match selector_for_index(&devices, 3) {
        Err(AttentioError::BleNotFound { selector }) => assert_eq!(selector, "index 3"),
        other => panic!("unexpected {:?}", other),
    }
}
