use attentio::device::ble::{
    connect_timeout_error, dropped_link_error, is_bond_mismatch, pairing_required_error,
    step_timeout_error, unresolved_error,
};
use attentio::device::discovery::needs_sysfs_serial;
use attentio::error::AttentioError;
use attentio::monitor::view::device_label;

fn ble_text(e: &AttentioError) -> String {
    match e {
        AttentioError::Ble(m) => m.clone(),
        other => panic!("expected a BLE error, got {:?}", other),
    }
}

#[test]
fn step_timeout_text_and_heal() {
    let e = step_timeout_error("subscribe", 10);
    assert_eq!(ble_text(&e), "subscribe timed out after 10s");
    assert!(is_bond_mismatch(&e));
    assert!(is_bond_mismatch(&step_timeout_error("notifications", 10)));
    assert!(!is_bond_mismatch(&step_timeout_error("connect", 10)));
}

#[test]
fn dropped_link_text_and_heal() {
    let e = dropped_link_error("Service discovery timed out", "AA:BB:CC:DD:EE:FF");
    assert_eq!(
        ble_text(&e),
        "the device dropped the link during service discovery (Service discovery timed out). \
         This usually means a stale/mismatched bond or another central holding the single BLE \
         session. Try: make sure no phone is connected, then `bluetoothctl remove AA:BB:CC:DD:EE:FF` \
         and re-pair."
    );
    assert!(is_bond_mismatch(&e));
}

#[test]
fn unresolved_text_and_heal() {
    let e = unresolved_error();
    assert_eq!(
        ble_text(&e),
        "the Attentio TX/RX characteristics did not resolve in time \u{2014} try moving closer, or re-pair the device"
    );
    assert!(is_bond_mismatch(&e));
}

#[test]
fn connect_timeout_text_does_not_heal() {
    let e = connect_timeout_error(15);
    assert_eq!(
        ble_text(&e),
        "connect timed out after 15s \u{2014} is the device already connected to a phone or another host? The firmware allows a single BLE session."
    );
    assert!(!is_bond_mismatch(&e));
}

#[test]
fn pairing_required_text() {
    match pairing_required_error("AA:BB:CC:DD:EE:FF") {
        AttentioError::BlePairing(m) => assert_eq!(
            m,
            "device AA:BB:CC:DD:EE:FF is not paired. Pair it once, then retry:\n  bluetoothctl\n    pair AA:BB:CC:DD:EE:FF\n    quit\n  (Do NOT 'trust' it \u{2014} a trusted device is auto-connected by BlueZ and the single-session firmware will refuse our connection.)"
        ),
        other => panic!("expected a pairing error, got {:?}", other),
    }
}

#[test]
fn sysfs_consulted_only_without_serial() {
    assert!(needs_sysfs_serial(None));
    assert!(needs_sysfs_serial(Some("")));
    assert!(!needs_sysfs_serial(Some("3A002B000F51363439373834")));
}

#[test]
fn status_bar_device_label() {
    assert_eq!(device_label("3A00"), "[3A00] ");
}
