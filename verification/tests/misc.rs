use attentio::device::connection::{check_port_busy, trim_line_end, tx_chunks, RxBuffer};
use attentio::device::info::{metadata_from_response, parse_response_value, settings_from_response};
use attentio::error::{split_list_exec, AttentioError, ContextValue};
use attentio::text::{
    contains, dec_fixed_string, dec_string, eq_ignore_ascii_case, hex_fixed_string, join,
    parse_usize, starts_with, str_lt, trim,
};
use attentio::tui::app::App as DebugApp;

#[test]
fn ble_reader_splits_buffered_notifications() {
    // A notification larger than a read is returned across several reads.
    let mut rx = RxBuffer::new();
    assert!(rx.is_empty());
    rx.refill(vec![1, 2, 3, 4, 5]);
    assert_eq!(rx.take(3), vec![1, 2, 3]);
    assert_eq!(rx.take(3), vec![4, 5]);
    assert!(rx.is_empty());
    assert_eq!(rx.take(3), Vec::<u8>::new());
}

#[test]
fn tx_chunking() {
    let data: Vec<u8> = (0..45).collect();
    let chunks = tx_chunks(&data, 20);
    assert_eq!(chunks.len(), 3);
    assert_eq!(chunks[0].len(), 20);
    assert_eq!(chunks[2], (40..45).collect::<Vec<u8>>());
    assert_eq!(chunks.concat(), data);
    assert_eq!(tx_chunks(&[7, 8], 0), vec![vec![7], vec![8]]);
    assert!(tx_chunks(&[], 20).is_empty());
}

#[test]
fn line_endings_trimmed() {
    assert_eq!(trim_line_end("hello\r\n"), "hello");
    assert_eq!(trim_line_end("a\n\r\n"), "a");
    assert_eq!(trim_line_end(" x "), " x ");
}

#[test]
fn key_value_responses() {
    assert_eq!(parse_response_value("  serial_number=ABC\n", "serial_number"), Some("ABC".to_string()));
    assert_eq!(parse_response_value("a=b=c", "a"), Some("b=c".to_string()));
    assert_eq!(parse_response_value("other=1", "serial_number"), None);
    assert_eq!(parse_response_value("", "a"), None);
    assert_eq!(metadata_from_response(Some("serial_number=42")).serial_number, Some("42".to_string()));
    assert_eq!(metadata_from_response(None).serial_number, None);
    assert_eq!(settings_from_response(Some(" Lamp \n")).device_name, Some("Lamp".to_string()));
    assert_eq!(settings_from_response(Some("  ")).device_name, None);
}

#[test]
fn error_messages_and_context() {
    assert_eq!(AttentioError::DeviceNotFound.message(), "no device(s) found");
    assert_eq!(
        AttentioError::DeviceIndexOutOfRange { index: 4, count: 2 }.message(),
        "device #4 not found \u{2014} only 2 device(s) connected. Run 'attentio list' to see available devices."
    );
    assert_eq!(AttentioError::Timeout { seconds: 3 }.message(), "command timed out after 3s");
    assert_eq!(
        AttentioError::PortBusy { port: "/dev/ttyACM1".to_string() }.message(),
        "port /dev/ttyACM1 is busy \u{2014} another process has it open"
    );
    assert_eq!(AttentioError::Other("x".to_string()).message(), "x");
    assert_eq!(AttentioError::Timeout { seconds: 3 }.error_type(), "Timeout");
    assert!(AttentioError::PortBusy { port: String::new() }.is_port_busy());
    assert!(!AttentioError::DeviceNotFound.is_port_busy());
    let e = AttentioError::MultipleDevices { serials: "A, B".to_string() };
    assert_eq!(
        e.context_entries(),
        vec![(
            "available_devices".to_string(),
            ContextValue::List(vec!["A".to_string(), "B".to_string()])
        )]
    );
    assert_eq!(
        AttentioError::DeviceIndexOutOfRange { index: 4, count: 2 }.context_entries(),
        vec![
            ("requested_index".to_string(), ContextValue::Number(4)),
            ("device_count".to_string(), ContextValue::Number(2))
        ]
    );
    assert!(AttentioError::DeviceNotFound.context_entries().is_empty());
    assert_eq!(split_list_exec("a,b, c"), vec!["a,b".to_string(), "c".to_string()]);
    assert_eq!(split_list_exec(""), vec![String::new()]);
}

#[test]
fn text_helpers() {
    assert_eq!(dec_string(0), "0");
    assert_eq!(dec_string(18446744073709551615), "18446744073709551615");
    assert_eq!(dec_fixed_string(7, 3), "007");
    assert_eq!(hex_fixed_string(0xAB, 2), "AB");
    assert_eq!(hex_fixed_string(0x1209, 4), "1209");
    assert_eq!(trim("\t hi there \n"), "hi there");
    assert_eq!(parse_usize("42"), Some(42));
    assert_eq!(parse_usize("+7"), Some(7));
    assert_eq!(parse_usize("-1"), None);
    assert_eq!(parse_usize(""), None);
    assert_eq!(parse_usize("18446744073709551616"), None);
    assert!(contains("EngEmil.io AttentioLight-1", "Attentio"));
    assert!(!contains("abc", "abcd"));
    assert!(starts_with("\u{2190} OK [01]", "\u{2190} OK"));
    assert!(eq_ignore_ascii_case("aB:cd", "Ab:CD"));
    assert!(str_lt("A", "a"));
    assert!(str_lt("ab", "abc"));
    assert!(!str_lt("b", "ab"));
    assert_eq!(join(&["x".to_string(), "y".to_string()], "-"), "x-y");
}

#[test]
fn debug_dashboard_state() {
    let mut a = DebugApp::new("S".to_string(), None, false);
    for i in 0..1005 {
        a.push_debug_line(i.to_string());
    }
    assert_eq!(a.debug_lines.len(), 1000);
    assert_eq!(a.debug_lines[0], "5");
    a.scroll_up(2000);
    assert_eq!(a.debug_scroll, 1000);
    a.scroll_down(10);
    assert_eq!(a.debug_scroll, 990);
}

#[test]
fn busy_port_held_by_another_process() {
    let fds: Vec<(u32, u64)> = vec![(100, 7), (200, 42), (300, 9)];
    assert_eq!(
        check_port_busy("/dev/ttyACM1", 42, 100, &fds),
        Err(AttentioError::PortBusy { port: "/dev/ttyACM1".to_string() })
    );
    assert_eq!(check_port_busy("/dev/ttyACM1", 42, 200, &fds), Ok(()));
    assert_eq!(check_port_busy("/dev/ttyACM1", 0, 100, &[(200, 0)]), Ok(()));
    assert_eq!(check_port_busy("/dev/ttyACM1", 5, 100, &fds), Ok(()));
}
