use attentio::error::AttentioError;
use attentio::protocol::client::{
    command_requires_claim, control_mode_name, decode_log_level, decode_session_id, decode_status,
    effects_submode_name, hsv_payload, interface_name, key_request, key_value_request,
    metadata_complete, parse_kv_list, parse_kv_pair, parse_kv_paginated, parse_kv_single,
    response_payload, standalone_mode_name, system_state_name, ClaimState, DeviceStatus,
};
use attentio::protocol::packet::{ApResponse, CMD_ERROR, CMD_OK};

fn protocol_message(e: AttentioError) -> String {
    match e {
        AttentioError::Protocol { message } => message,
        other => panic!("expected a protocol error, got {:?}", other),
    }
}

#[test]
fn status_byte_names() {
    assert_eq!(control_mode_name(0), "STANDALONE");
    assert_eq!(control_mode_name(1), "REMOTE");
    assert_eq!(control_mode_name(7), "UNKNOWN");
    assert_eq!(interface_name(2), "USB");
    assert_eq!(interface_name(4), "WiFi");
    assert_eq!(system_state_name(2), "ACTIVE");
    assert_eq!(system_state_name(9), "UNKNOWN");
    assert_eq!(standalone_mode_name(6), "Night Light");
    assert_eq!(effects_submode_name(12), "Memory");
    assert_eq!(effects_submode_name(13), "UNKNOWN");
}

#[test]
fn response_payload_ok_and_errors() {
    let ok = ApResponse { cmd: CMD_OK, payload: vec![1, 2] };
    assert_eq!(response_payload(ok).unwrap(), vec![1, 2]);

    let err = ApResponse { cmd: CMD_ERROR, payload: vec![0x01] };
    assert_eq!(
        protocol_message(response_payload(err).unwrap_err()),
        "device returned error 0x01: not active controller"
    );

    let bare = ApResponse { cmd: CMD_ERROR, payload: vec![] };
    assert_eq!(
        protocol_message(response_payload(bare).unwrap_err()),
        "device returned error 0xFF: unknown error"
    );

    let other = ApResponse { cmd: 0x81, payload: vec![] };
    assert_eq!(
        protocol_message(response_payload(other).unwrap_err()),
        "unexpected response command: 0x81"
    );
}

#[test]
fn decode_status_legacy_and_v2() {
    let legacy = [2, 10, 20, 30, 80, 0, 1, 4];
    let s = decode_status(&legacy).unwrap();
    assert_eq!(
        s,
        DeviceStatus {
            system_state: 2,
            current_r: 10,
            current_g: 20,
            current_b: 30,
            brightness: 80,
            control_mode: 0,
            active_controller: 1,
            standalone_mode: 4,
            effects_submode: 0,
            standalone_color_index: 0,
            standalone_brightness_raw: 0,
            anim_type: 0,
            session_id: 0,
        }
    );
    let v2 = [2, 1, 2, 3, 50, 1, 2, 0, 5, 6, 255, 7, 0x12, 0x34];
    let s = decode_status(&v2).unwrap();
    assert_eq!(s.effects_submode, 5);
    assert_eq!(s.standalone_color_index, 6);
    assert_eq!(s.standalone_brightness_raw, 255);
    assert_eq!(s.anim_type, 7);
    assert_eq!(s.session_id, 0x1234);
}

#[test]
fn decode_status_too_short() {
    let e = decode_status(&[1, 2, 3]).unwrap_err();
    assert_eq!(
        protocol_message(e),
        "GET_STATUS response too short: 3 bytes (expected >= 8)"
    );
}

#[test]
fn session_id_and_log_level() {
    assert_eq!(decode_session_id(&[0x01, 0x02]), 0x0102);
    assert_eq!(decode_session_id(&[0x01]), 0);
    assert_eq!(decode_log_level(&[3, 9]).unwrap(), 3);
    assert_eq!(
        protocol_message(decode_log_level(&[]).unwrap_err()),
        "LOG_GET_LEVEL response has no payload"
    );
}

#[test]
fn request_encoding() {
    assert_eq!(key_request("device_name"), {
        let mut v = vec![11u8];
        v.extend_from_slice(b"device_name");
        v
    });
    assert_eq!(key_value_request("a", "xyz"), vec![1, b'a', 3, b'x', b'y', b'z']);
    assert_eq!(hsv_payload(300, 50, 75), vec![0x2C, 0x01, 50, 75]);
    assert!(metadata_complete(3, 3));
    assert!(!metadata_complete(2, 3));
}

#[test]
fn kv_pair_parses_and_reports_position() {
    let data = key_value_request("device_name", "Lamp");
    let (k, v, pos) = parse_kv_pair(&data, 0).unwrap();
    assert_eq!(k, "device_name");
    assert_eq!(v, "Lamp");
    assert_eq!(pos, data.len());
}

#[test]
fn kv_pair_errors() {
    assert_eq!(parse_kv_pair(&[], 0).unwrap_err(), "unexpected end of data (no key_len)");
    assert_eq!(
        parse_kv_pair(&[5, b'a'], 0).unwrap_err(),
        "key_len=5 exceeds remaining data (1 bytes)"
    );
    assert_eq!(
        parse_kv_pair(&[1, b'a'], 0).unwrap_err(),
        "unexpected end of data (no val_len)"
    );
    assert_eq!(
        parse_kv_pair(&[1, b'a', 4, b'x'], 0).unwrap_err(),
        "val_len=4 exceeds remaining data (1 bytes)"
    );
    assert_eq!(
        parse_kv_pair(&[1, 0xFF, 0], 0).unwrap_err(),
        "key is not valid UTF-8"
    );
    assert_eq!(
        parse_kv_pair(&[1, b'k', 1, 0xC3], 0).unwrap_err(),
        "value is not valid UTF-8"
    );
}

#[test]
fn kv_pair_decodes_utf8() {
    let data = [1, b'k', 2, 0xC3, 0xA9];
    let (k, v, pos) = parse_kv_pair(&data, 0).unwrap();
    assert_eq!(k, "k");
    assert_eq!(v, "\u{e9}");
    assert_eq!(pos, 5);
}

#[test]
fn kv_list_and_errors() {
    let mut data = vec![2u8];
    data.extend(key_value_request("a", "1"));
    data.extend(key_value_request("bb", "22"));
    let entries = parse_kv_list(&data).unwrap();
    assert_eq!(
        entries,
        vec![
            ("a".to_string(), "1".to_string()),
            ("bb".to_string(), "22".to_string())
        ]
    );
    assert_eq!(
        protocol_message(parse_kv_list(&[]).unwrap_err()),
        "empty key-value list payload"
    );
    let mut short = vec![2u8];
    short.extend(key_value_request("a", "1"));
    assert_eq!(
        protocol_message(parse_kv_list(&short).unwrap_err()),
        "key-value list entry 2/2: unexpected end of data (no key_len)"
    );
}

#[test]
fn kv_paginated_and_errors() {
    let mut data = vec![5u8, 1, 1];
    data.extend(key_value_request("fw", "1.2"));
    let (total, page, entries) = parse_kv_paginated(&data).unwrap();
    assert_eq!((total, page), (5, 1));
    assert_eq!(entries, vec![("fw".to_string(), "1.2".to_string())]);
    assert_eq!(
        protocol_message(parse_kv_paginated(&[1, 2]).unwrap_err()),
        "paginated key-value payload too short: 2 bytes (need at least 3)"
    );
    assert_eq!(
        protocol_message(parse_kv_paginated(&[3, 2, 1, 9]).unwrap_err()),
        "paginated key-value entry 1/1 (page 2): key_len=9 exceeds remaining data (0 bytes)"
    );
}

#[test]
fn kv_single_and_errors() {
    let data = key_value_request("device_name", "Desk");
    assert_eq!(
        parse_kv_single(&data).unwrap(),
        ("device_name".to_string(), "Desk".to_string())
    );
    assert_eq!(
        protocol_message(parse_kv_single(&[]).unwrap_err()),
        "empty key-value payload"
    );
    assert_eq!(
        protocol_message(parse_kv_single(&[3]).unwrap_err()),
        "key_len=3 exceeds remaining data (0 bytes)"
    );
}

#[test]
fn claim_state_auto_claims_once() {
    let mut c = ClaimState::new();
    assert!(c.needs_claim());
    c.on_claimed();
    assert!(!c.needs_claim());
    assert!(!c.needs_claim());
    c.on_released();
    assert!(c.needs_claim());
    assert!(command_requires_claim(0x21));
    assert!(command_requires_claim(0x52));
    assert!(!command_requires_claim(0x61));
    assert!(!command_requires_claim(0x40));
}
