use attentio::monitor::app::{
    handle_key_event, log_level_query, outgoing_line, parse_log_level_from_line, port_flags,
    push_line, Action, App, KeyCode, KeyPress, Pane, PortOpen, ReaderEffect, ReaderMsg,
    MAX_LINES,
};
use attentio::monitor::format::{
    button_event_name, cmd_name, format_cmd_payload, format_hex, format_incoming, format_outgoing,
    session_end_reason,
};
use attentio::monitor::view::{
    border_tone, focus_label, log_level_label, pane_body, pane_title, scroll_indicator,
    visible_range, PaneBody, PortStatus, Tone,
};
use attentio::protocol::client::hsv_payload;
use attentio::protocol::packet::{build_packet, ApResponse};

fn app() -> App {
    App::new("SER".to_string(), Some("/dev/ttyACM0".to_string()), true, Some("/dev/ttyACM1".to_string()))
}

fn key(code: KeyCode) -> KeyPress {
    KeyPress { code, ctrl: false }
}

#[test]
fn new_app_state() {
    let a = app();
    assert!(a.running);
    assert!(a.serial_connected);
    assert!(!a.ap_connected);
    assert_eq!(a.active_pane, Pane::Serial);
    assert_eq!(a.log_level, None);
}

#[test]
fn push_line_keeps_newest_lines() {
    let mut lines: Vec<String> = (0..MAX_LINES).map(|i| i.to_string()).collect();
    let mut scroll = 5;
    push_line(&mut lines, &mut scroll, "new".to_string());
    assert_eq!(lines.len(), MAX_LINES);
    assert_eq!(lines[0], "1");
    assert_eq!(lines.last().unwrap(), "new");
    assert_eq!(scroll, 4);
    let mut scroll0 = 0;
    push_line(&mut lines, &mut scroll0, "more".to_string());
    assert_eq!(scroll0, 0);
}

#[test]
fn scrolling_is_clamped() {
    let mut a = app();
    for i in 0..3 {
        a.push_serial_line(format!("line {}", i));
    }
    a.scroll_up(10);
    assert_eq!(a.serial_scroll, 3);
    a.scroll_down(2);
    assert_eq!(a.serial_scroll, 1);
    a.scroll_down(5);
    assert_eq!(a.serial_scroll, 0);
    a.toggle_pane();
    assert_eq!(a.active_pane, Pane::Protocol);
    a.scroll_up(1);
    assert_eq!(a.ap_scroll, 0);
    a.toggle_pane();
    assert_eq!(a.active_pane, Pane::Serial);
}

#[test]
fn keys_map_to_actions() {
    let mut a = app();
    assert_eq!(handle_key_event(&mut a, key(KeyCode::Char('3'))), Action::SetLogLevel(3));
    assert_eq!(handle_key_event(&mut a, key(KeyCode::Char('5'))), Action::Nothing);
    assert_eq!(a.active_pane, Pane::Serial);
    assert_eq!(handle_key_event(&mut a, key(KeyCode::Tab)), Action::Nothing);
    assert_eq!(a.active_pane, Pane::Protocol);
    assert_eq!(handle_key_event(&mut a, key(KeyCode::Tab)), Action::Nothing);
    assert_eq!(a.active_pane, Pane::Serial);
    assert!(a.running);
    assert_eq!(handle_key_event(&mut a, KeyPress { code: KeyCode::Char('c'), ctrl: true }), Action::Quit);
    assert!(!a.running);
    let mut b = app();
    for i in 0..20 {
        b.push_serial_line(i.to_string());
    }
    handle_key_event(&mut b, key(KeyCode::PageUp));
    assert_eq!(b.serial_scroll, 10);
    handle_key_event(&mut b, key(KeyCode::Down));
    assert_eq!(b.serial_scroll, 9);
    assert_eq!(handle_key_event(&mut b, key(KeyCode::Esc)), Action::Quit);
}

#[test]
fn log_level_from_ok_line() {
    let mut a = app();
    parse_log_level_from_line("\u{2190} OK [03]", &mut a);
    assert_eq!(a.log_level, Some(3));
    parse_log_level_from_line("\u{2190} OK [05]", &mut a);
    assert_eq!(a.log_level, Some(3));
    parse_log_level_from_line("\u{2190} OK [01 02]", &mut a);
    assert_eq!(a.log_level, Some(3));
    parse_log_level_from_line("\u{2190} ERROR: none", &mut a);
    assert_eq!(a.log_level, Some(3));
    parse_log_level_from_line("\u{2190} OK [+2]", &mut a);
    assert_eq!(a.log_level, Some(2));
    parse_log_level_from_line("\u{2190} OK [00]]", &mut a);
    assert_eq!(a.log_level, Some(0));
}

#[test]
fn reader_messages_update_state() {
    let mut a = app();
    let e = a.handle_reader_msg(ReaderMsg::SerialError("boom".to_string()));
    assert!(matches!(e, ReaderEffect::SpawnSerialReconnect(ref p) if p == "/dev/ttyACM0"));
    assert!(!a.serial_connected);
    assert!(a.serial_reconnecting);
    let n = a.serial_lines.len();
    assert_eq!(a.serial_lines[n - 2], "[ERROR: boom]");
    assert_eq!(a.serial_lines[n - 1], "Attempting to reconnect...");

    let e = a.handle_reader_msg(ReaderMsg::ApConnected);
    assert!(matches!(e, ReaderEffect::QueryLogLevel));
    assert!(a.ap_connected);
    assert_eq!(a.ap_lines.last().unwrap(), "Connected. Listening for AP traffic...");

    a.handle_reader_msg(ReaderMsg::ApLine("\u{2190} OK [04]".to_string()));
    assert_eq!(a.log_level, Some(4));

    a.handle_reader_msg(ReaderMsg::ApPortBusy("port X is busy".to_string()));
    assert!(a.ap_port_busy);
    assert_eq!(a.ap_lines.last().unwrap(), "[port X is busy]");
}

#[test]
fn log_level_requests() {
    let mut a = app();
    assert!(a.log_level_request(2).is_none());
    assert_eq!(a.ap_lines.last().unwrap(), "[No AP connection for log level control]");
    a.ap_connected = true;
    assert_eq!(a.log_level_request(2), Some(build_packet(0x61, &[2])));
    a.log_level_sent(2, true);
    assert_eq!(a.log_level, Some(2));
    assert_eq!(a.serial_lines.last().unwrap(), "[Log level set to 2 (WARN)]");
    a.log_level_sent(4, false);
    assert_eq!(a.log_level, Some(2));
    assert_eq!(a.ap_lines.last().unwrap(), "[Failed to send log level command]");
    assert_eq!(log_level_query(), build_packet(0x60, &[]));
}

#[test]
fn banner_lines() {
    let mut a = app();
    a.start_banner();
    assert_eq!(
        a.serial_lines,
        vec![
            "Listening for serial prints...".to_string(),
            "Press Esc or Ctrl+C to quit. Tab to switch panes.".to_string(),
            String::new()
        ]
    );
    assert!(a.ap_lines.is_empty());
    assert_eq!(port_flags(PortOpen::Busy), (false, false, true));
    assert_eq!(port_flags(PortOpen::Failed), (false, true, false));
}

#[test]
fn formatting_of_traffic() {
    assert_eq!(format_hex(&[0x0A, 0xFF, 0x00]), "0A FF 00");
    assert_eq!(format_hex(&[]), "");
    assert_eq!(cmd_name(0x22), "SET_HSV");
    assert_eq!(cmd_name(0x99), "UNKNOWN");
    assert_eq!(format_outgoing(0x03, &[]), "\u{2192} PING");
    assert_eq!(format_outgoing(0x21, &[1, 2, 3]), "\u{2192} SET_RGB [R:1 G:2 B:3]");
    assert_eq!(format_outgoing(0x22, &hsv_payload(300, 50, 75)), "\u{2192} SET_HSV [H:300 S:50 V:75]");
    assert_eq!(format_cmd_payload(0x23, &[80]), "[80%]");
    assert_eq!(format_cmd_payload(0x61, &[4]), "[4 (DEBUG)]");
    assert_eq!(format_cmd_payload(0x61, &[9]), "[9 (?)]");
    assert_eq!(format_cmd_payload(0x21, &[1]), "[01]");
    assert_eq!(button_event_name(0x02), "LONG_PRESS_START");
    assert_eq!(session_end_reason(0x01), "TAKEOVER");
}

#[test]
fn formatting_of_incoming() {
    let r = |cmd: u8, payload: Vec<u8>| ApResponse { cmd, payload };
    assert_eq!(format_incoming(&r(0xF0, vec![])), "\u{2190} OK");
    assert_eq!(format_incoming(&r(0xF0, vec![3])), "\u{2190} OK [03]");
    assert_eq!(format_incoming(&r(0xF1, vec![2])), "\u{2190} ERROR: invalid/unknown command");
    assert_eq!(format_incoming(&r(0x80, vec![1])), "\u{2190} EVT_BUTTON SHORT_PRESS");
    assert_eq!(format_incoming(&r(0x81, vec![1, 2])), "\u{2190} EVT_STATE_CHANGE [01 02]");
    assert_eq!(format_incoming(&r(0x82, vec![1, 0x01, 0x02])), "\u{2190} EVT_SESSION_END TAKEOVER (session 258)");
    assert_eq!(format_incoming(&r(0x82, vec![0])), "\u{2190} EVT_SESSION_END RELEASED");
    assert_eq!(format_incoming(&r(0x55, vec![])), "\u{2190} CMD:0x55");
    assert_eq!(format_incoming(&r(0x55, vec![9])), "\u{2190} CMD:0x55 [09]");
}

#[test]
fn outgoing_packets_are_displayed() {
    let pkt = build_packet(0x61, &[3]);
    assert_eq!(outgoing_line(&pkt), Some("\u{2192} LOG_SET_LEVEL [3 (INFO)]".to_string()));
    assert_eq!(outgoing_line(&build_packet(0x60, &[])), Some("\u{2192} LOG_GET_LEVEL".to_string()));
    assert_eq!(outgoing_line(&[0xA5, 0x01]), None);
}

#[test]
fn pane_views() {
    let st = PortStatus { connected: false, reconnecting: false, port_busy: true };
    assert_eq!(
        pane_title("AP Protocol (CDC1)", "(no port)", Some("/dev/ttyACM1"), st),
        " AP Protocol (CDC1) \u{2014} /dev/ttyACM1 (PORT BUSY) "
    );
    assert_eq!(
        pane_title("AP Protocol (CDC1)", "(no port)", None, st),
        " AP Protocol (CDC1) \u{2014} (no port) "
    );
    assert_eq!(border_tone(true), Tone::Yellow);
    assert_eq!(
        pane_body(st, true, false, "(not connected)", None, true),
        PaneBody::Disconnected("(port busy \u{2014} close other process)", Tone::Red)
    );
    let ok = PortStatus { connected: true, reconnecting: false, port_busy: false };
    assert_eq!(
        pane_body(ok, true, false, "(not connected)", Some("(waiting)"), false),
        PaneBody::Waiting("(waiting)")
    );
    assert_eq!(pane_body(ok, true, false, "(not connected)", Some("(waiting)"), true), PaneBody::Lines);
    assert_eq!(visible_range(100, 0, 10), (90, 100));
    assert_eq!(visible_range(100, 95, 10), (0, 5));
    assert_eq!(visible_range(5, 0, 10), (0, 5));
    assert_eq!(visible_range(0, 3, 10), (0, 0));
    assert_eq!(scroll_indicator(7, 5), " \u{2191} 5 more below ");
    assert_eq!(log_level_label(Some(3)), ("Log:INFO ".to_string(), Tone::Green));
    assert_eq!(log_level_label(Some(9)), ("Log:? ".to_string(), Tone::DarkGray));
    assert_eq!(focus_label(Pane::Protocol), "Focus:AP ");
}
