use attentio::protocol::crc::crc8;
use attentio::protocol::packet::{
    ap_error_name, build_packet, ApParser, ApResponse, AP_ERR_INVALID_CMD, CMD_DFU_ENTER,
    CMD_ERROR, CMD_EVT_BUTTON, CMD_GET_METADATA, CMD_OK, SYNC_BYTE,
};

#[test]
fn test_build_packet_no_payload() {
    // DFU_ENTER: no payload
    let pkt = build_packet(CMD_DFU_ENTER, &[]);
    assert_eq!(pkt, vec![0xA5, 0x01, 0x70, 0x42]);
}

#[test]
fn test_build_packet_with_payload() {
    // GET_METADATA: no payload
    let pkt = build_packet(CMD_GET_METADATA, &[]);
    assert_eq!(pkt.len(), 4); // SYNC + LEN + CMD + CRC
    assert_eq!(pkt[0], SYNC_BYTE);
    assert_eq!(pkt[1], 0x01); // LEN = 1 (just CMD)
    assert_eq!(pkt[2], CMD_GET_METADATA);
    // CRC over [0x01, 0x43]
    assert_eq!(pkt[3], crc8(&[0x01, 0x43]));
}

#[test]
fn test_parser_ok_response_no_payload() {
    // Bare OK: [0xA5, 0x01, 0xF0, CRC]
    let pkt = build_packet(CMD_OK, &[]);
    let mut parser = ApParser::new();
    let mut result = None;
    for &b in &pkt {
        if let Some(r) = parser.feed(b) {
            result = Some(r);
        }
    }
    let resp = result.expect("should parse OK response");
    assert!(resp.is_ok());
    assert!(resp.payload.is_empty());
}

#[test]
fn test_parser_error_response() {
    // ERROR with code 0x02: [0xA5, 0x02, 0xF1, 0x02, CRC]
    let pkt = build_packet(CMD_ERROR, &[AP_ERR_INVALID_CMD]);
    let mut parser = ApParser::new();
    let mut result = None;
    for &b in &pkt {
        if let Some(r) = parser.feed(b) {
            result = Some(r);
        }
    }
    let resp = result.expect("should parse ERROR response");
    assert!(resp.is_error());
    assert_eq!(resp.error_code(), Some(AP_ERR_INVALID_CMD));
}

#[test]
fn test_parser_with_garbage_prefix() {
    // Garbage bytes before a valid packet should be skipped
    let pkt = build_packet(CMD_OK, &[]);
    let mut data = vec![0x00, 0xFF, 0x12]; // garbage
    data.extend_from_slice(&pkt);

    let mut parser = ApParser::new();
    let mut result = None;
    for &b in &data {
        if let Some(r) = parser.feed(b) {
            result = Some(r);
        }
    }
    let resp = result.expect("should parse OK after garbage");
    assert!(resp.is_ok());
}

#[test]
fn test_parser_crc_mismatch() {
    // Corrupt CRC
    let mut pkt = build_packet(CMD_OK, &[]);
    *pkt.last_mut().unwrap() ^= 0xFF; // flip CRC bits

    let mut parser = ApParser::new();
    let mut result = None;
    for &b in &pkt {
        if let Some(r) = parser.feed(b) {
            result = Some(r);
        }
    }
    assert!(result.is_none(), "CRC mismatch should not produce a response");
}

#[test]
fn crc8_known_values() {
    assert_eq!(crc8(&[]), 0x00);
    assert_eq!(crc8(&[0x01, 0x70]), 0x42);
    // CRC-8/CCITT (poly 0x07, init 0) check value of "123456789".
    assert_eq!(crc8(b"123456789"), 0xF4);
}

#[test]
fn packet_roundtrip_with_payload() {
    let payload = [1u8, 2, 3, 250];
    let pkt = build_packet(0x21, &payload);
    assert_eq!(pkt[1], 5);
    let mut parser = ApParser::new();
    let resp = parser.feed_until_response(&pkt).expect("one response");
    assert_eq!(resp.cmd, 0x21);
    assert_eq!(resp.payload, payload.to_vec());
}

#[test]
fn feed_until_response_leaves_rest_unread() {
    let mut bytes = vec![0x11, 0x22];
    bytes.extend(build_packet(CMD_OK, &[7]));
    bytes.extend(build_packet(CMD_ERROR, &[1]));
    let mut parser = ApParser::new();
    let first = parser.feed_until_response(&bytes).expect("first response");
    assert_eq!(first.cmd, CMD_OK);
    assert_eq!(first.payload, vec![7]);
}

#[test]
fn parser_rejects_bad_length_and_resyncs() {
    let mut parser = ApParser::new();
    // LEN 0 is invalid: the parser goes back to waiting for sync.
    assert!(parser.feed(SYNC_BYTE).is_none());
    assert!(parser.feed(0).is_none());
    let pkt = build_packet(CMD_OK, &[]);
    assert!(parser.feed_until_response(&pkt).is_some());
}

#[test]
fn max_payload_packet_parses() {
    let payload = vec![0xAB; 252];
    let pkt = build_packet(CMD_OK, &payload);
    assert_eq!(pkt.len(), 256);
    assert_eq!(pkt[1], 253);
    let mut parser = ApParser::new();
    let resp = parser.feed_until_response(&pkt).unwrap();
    assert_eq!(resp.payload.len(), 252);
}

#[test]
fn parser_reset_discards_partial_packet() {
    let pkt = build_packet(CMD_OK, &[9]);
    let mut parser = ApParser::new();
    for &b in &pkt[..3] {
        assert!(parser.feed(b).is_none());
    }
    parser.reset();
    assert!(parser.feed_until_response(&pkt[3..]).is_none());
    assert!(parser.feed_until_response(&pkt).is_some());
}

#[test]
fn error_code_names() {
    assert_eq!(ap_error_name(0x00), "none");
    assert_eq!(ap_error_name(0x01), "not active controller");
    assert_eq!(ap_error_name(0x05), "CRC check failed");
    assert_eq!(ap_error_name(0x42), "unknown error");
}

#[test]
fn response_arrives_on_last_byte_only() {
    let pkt = build_packet(CMD_OK, &[1, 2, 3]);
    let mut p = ApParser::new();
    for _round in 0..2 {
        for (i, &b) in pkt.iter().enumerate() {
            let r = p.feed(b);
            if i + 1 < pkt.len() {
                assert!(r.is_none());
            } else {
                let resp = r.expect("response at the last byte");
                assert_eq!(resp.cmd, CMD_OK);
                assert_eq!(resp.payload, vec![1, 2, 3]);
            }
        }
    }
}

#[test]
fn events_are_set_aside_for_the_command_waiter() {
    let mut bytes = build_packet(CMD_EVT_BUTTON, &[1]);
    bytes.extend(build_packet(CMD_OK, &[7]));
    bytes.extend(build_packet(CMD_OK, &[8]));
    let mut p = ApParser::new();
    let mut events: Vec<ApResponse> = Vec::new();
    let resp = p.feed_until_command_response(&bytes, &mut events).expect("a response");
    assert_eq!(resp.cmd, CMD_OK);
    assert_eq!(resp.payload, vec![7]);
    assert_eq!(events.len(), 1);
    assert_eq!(events[0].cmd, CMD_EVT_BUTTON);
    assert!(events[0].is_event());
    assert!(!resp.is_event());

    let mut p2 = ApParser::new();
    let mut only_events: Vec<ApResponse> = Vec::new();
    let none = p2.feed_until_command_response(&build_packet(CMD_EVT_BUTTON, &[2]), &mut only_events);
    assert!(none.is_none());
    assert_eq!(only_events.len(), 1);
}
