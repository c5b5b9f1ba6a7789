use attentio::cli::commands::dfu::{
    check_can_enter_dfu, device_in_mode, flash_target_serial, is_expected_usb_drop,
    is_invalid_state, is_reboot_write_error, mode_label, FirmwareHeader, FlashProgress,
};
use attentio::cli::commands::list::{format_ports, format_status, table_lines};
use attentio::cli::commands::completions;
use attentio::cli::commands::loglevel::{level_name, validate_level};
use attentio::cli::commands::set::{validate_brightness, validate_hsv};
use attentio::cli::commands::settings::{
    load_step, parse_settings_file, settings_file_text, settings_lines, settings_snapshot, LoadReport,
};
use attentio::cli::commands::status::{configured_brightness_pct, status_lines};
use attentio::cli::{
    ble_unsupported_message, log_filter, target_device, unsupported_over_ble, Command,
};
use attentio::device::discovery::{AttentioDevice, CdcPort, CdcRole, DeviceMode, Transport};
use attentio::protocol::client::DeviceStatus;

fn device(serial: &str, mode: DeviceMode) -> AttentioDevice {
    AttentioDevice {
        serial: serial.to_string(),
        device_type: None,
        product: None,
        mode,
        usb_location: None,
        cdc0: None,
        cdc1: None,
        single_cdc: None,
        transport: Transport::Usb,
        ble_address: None,
        paired: None,
    }
}

#[test]
fn log_level_names_and_range() {
    assert_eq!(level_name(0), "NONE");
    assert_eq!(level_name(4), "DEBUG");
    assert_eq!(level_name(5), "UNKNOWN");
    assert!(validate_level(4).is_ok());
    assert_eq!(
        validate_level(5).unwrap_err(),
        "log level must be 0-4 (0=NONE, 1=ERROR, 2=WARN, 3=INFO, 4=DEBUG)"
    );
}

#[test]
fn set_ranges() {
    assert!(validate_hsv(359, 100, 100).is_ok());
    assert_eq!(validate_hsv(360, 0, 0).unwrap_err(), "hue must be 0-359, got 360");
    assert_eq!(validate_hsv(10, 101, 0).unwrap_err(), "saturation must be 0-100, got 101");
    assert_eq!(validate_hsv(10, 10, 200).unwrap_err(), "value must be 0-100, got 200");
    assert!(validate_brightness(100).is_ok());
    assert_eq!(validate_brightness(101).unwrap_err(), "brightness must be 0-100, got 101");
}

fn status(control_mode: u8, standalone_mode: u8) -> DeviceStatus {
    DeviceStatus {
        system_state: 2,
        current_r: 1,
        current_g: 2,
        current_b: 3,
        brightness: 40,
        control_mode,
        active_controller: 2,
        standalone_mode,
        effects_submode: 3,
        standalone_color_index: 0,
        standalone_brightness_raw: 128,
        anim_type: 0,
        session_id: 77,
    }
}

#[test]
fn status_report_lines() {
    assert_eq!(configured_brightness_pct(255), 100);
    assert_eq!(configured_brightness_pct(128), 50);
    assert_eq!(
        status_lines(&status(0, 4)),
        vec![
            "  System state:      ACTIVE",
            "  Color (RGB):       (dynamic)",
            "  Brightness:        50%",
            "  Control mode:      STANDALONE",
            "  Standalone mode:   Effects",
            "  Active effect:     Candle",
        ]
    );
    assert_eq!(
        status_lines(&status(1, 0)),
        vec![
            "  System state:      ACTIVE",
            "  Color (RGB):       (1, 2, 3)",
            "  Brightness:        40%",
            "  Control mode:      REMOTE",
            "  Active controller: USB",
            "  Session ID:        77",
        ]
    );
}

#[test]
fn list_table_layout() {
    let mut d = device("3A002B000F51363439373834", DeviceMode::Normal);
    d.product = Some("Desk".to_string());
    d.device_type = Some("EngEmil.io AttentioLight-1".to_string());
    d.usb_location = Some("Bus 001 Device 060".to_string());
    d.cdc0 = Some(CdcPort { path: "/dev/ttyACM0".to_string(), role: CdcRole::SerialPrints });
    d.cdc1 = Some(CdcPort { path: "/dev/ttyACM1".to_string(), role: CdcRole::Protocol });
    assert_eq!(format_status(&d), "Normal");
    assert_eq!(format_ports(&d), "/dev/ttyACM0 [serial], /dev/ttyACM1 [protocol]");
    let b = device("S2", DeviceMode::Bootloader);
    assert_eq!(format_ports(&b), "-");
    let lines = table_lines(&[d, b]);
    assert_eq!(
        lines,
        vec![
            "#  DEVICE NAME  DEVICE TYPE                 STATUS      SERIAL                  ",
            "-  -----------  --------------------------  ----------  ------------------------",
            "1  Desk         EngEmil.io AttentioLight-1  Normal      3A002B000F51363439373834",
            "   Ports: /dev/ttyACM0 [serial], /dev/ttyACM1 [protocol]   USB: Bus 001 Device 060",
            "",
            "2  -            -                           Bootloader  S2                      ",
            "   Ports: -   USB: -",
            "",
            "2 device(s) found.",
        ]
    );
}

#[test]
fn bootloader_ports_are_labelled() {
    let mut d = device("S", DeviceMode::Bootloader);
    d.single_cdc = Some(CdcPort { path: "COM5".to_string(), role: CdcRole::Single });
    assert_eq!(format_ports(&d), "COM5 [Bootloader/DFU]");
}

#[test]
fn settings_snapshot_is_canonical() {
    let pair = |k: &str, v: &str| (k.to_string(), v.to_string());
    let first = settings_snapshot(vec![pair("b", "2"), pair("a", "0"), pair("a", "1")]);
    let second = settings_snapshot(vec![pair("a", "1"), pair("b", "2")]);
    assert_eq!(first, second);
    assert_eq!(settings_snapshot(first.clone()), first);
}

#[test]
fn settings_snapshot_sorts_and_keeps_last() {
    let entries = vec![
        ("name".to_string(), "A".to_string()),
        ("loglevel".to_string(), "2".to_string()),
        ("name".to_string(), "B".to_string()),
    ];
    let snap = settings_snapshot(entries);
    assert_eq!(
        snap,
        vec![
            ("loglevel".to_string(), "2".to_string()),
            ("name".to_string(), "B".to_string())
        ]
    );
    assert_eq!(
        settings_lines(&snap),
        vec!["  loglevel  2".to_string(), "  name      B".to_string()]
    );
}

fn image(magic: u32, crc: u32, payload: &[u8]) -> Vec<u8> {
    let mut d = vec![0u8; 0x100];
    d[0..4].copy_from_slice(&magic.to_le_bytes());
    d[4..8].copy_from_slice(&7u32.to_le_bytes());
    d[8..12].copy_from_slice(&(payload.len() as u32).to_le_bytes());
    d[12..16].copy_from_slice(&crc.to_le_bytes());
    d[16..18].copy_from_slice(&0x1209u16.to_le_bytes());
    d[18..20].copy_from_slice(&0xEEA1u16.to_le_bytes());
    d.extend_from_slice(payload);
    d
}

#[test]
fn firmware_header_parse_and_crc() {
    // CRC-32 of "123456789" is 0xCBF43926.
    let good = image(0xDEAD_BEEF, 0xCBF4_3926, b"123456789");
    let h = FirmwareHeader::parse(&good).unwrap();
    assert_eq!(h.magic, 0xDEAD_BEEF);
    assert_eq!(h.version, 7);
    assert_eq!(h.size, 9);
    assert_eq!(h.vid, 0x1209);
    assert_eq!(h.pid, 0xEEA1);
    assert!(h.validate(&good).is_ok());

    let bad = image(0xDEAD_BEEF, 0x1234_5678, b"123456789");
    let h = FirmwareHeader::parse(&bad).unwrap();
    assert_eq!(
        h.validate(&bad).unwrap_err(),
        "firmware CRC32 mismatch: header says 0x12345678, computed 0xCBF43926 \u{2014} file may be corrupted"
    );

    let unsigned = image(0x0000_0001, 0, b"x");
    let h = FirmwareHeader::parse(&unsigned).unwrap();
    assert_eq!(
        h.validate(&unsigned).unwrap_err(),
        "invalid firmware header: magic 0x00000001 does not match expected 0xDEADBEEF \u{2014} is this a signed firmware binary?"
    );

    assert_eq!(
        FirmwareHeader::parse(&[0u8; 10]).unwrap_err(),
        "firmware file too small (10 bytes) \u{2014} expected at least 32 byte header"
    );
}

#[test]
fn firmware_header_warnings() {
    let h = FirmwareHeader { magic: 0xDEAD_BEEF, version: 1, size: 0, crc32: 0, vid: 0x0483, pid: 0 };
    assert_eq!(
        h.warnings(0x200),
        vec![
            "firmware VID 0x0483 does not match expected 0x1209 (pid.codes)".to_string(),
            "firmware header reports size = 0 (unsigned binary?)".to_string()
        ]
    );
    let big = FirmwareHeader { magic: 0xDEAD_BEEF, version: 1, size: 5000, crc32: 0, vid: 0x1209, pid: 0 };
    assert_eq!(
        big.warnings(0x200),
        vec!["firmware header size (5000) is larger than payload (256 bytes) \u{2014} possible mismatch".to_string()]
    );
}

#[test]
fn flash_planning() {
    let devices = vec![device("S1", DeviceMode::Bootloader)];
    assert_eq!(flash_target_serial(&devices, None), Some("S1".to_string()));
    assert_eq!(flash_target_serial(&devices, Some("X")), Some("X".to_string()));
    assert_eq!(flash_target_serial(&[device("unknown", DeviceMode::Normal)], None), None);
    assert!(device_in_mode(&devices, DeviceMode::Bootloader, Some("S1")));
    assert!(!device_in_mode(&devices, DeviceMode::Bootloader, Some("S2")));
    assert!(device_in_mode(&devices, DeviceMode::Bootloader, None));
    assert!(!device_in_mode(&devices, DeviceMode::Normal, None));
    assert_eq!(mode_label(DeviceMode::Bootloader), "bootloader");
    assert_eq!(
        check_can_enter_dfu(&devices[0]).unwrap_err(),
        "device 'S1' is already in bootloader mode \u{2014} no need to enter DFU"
    );
    assert!(is_reboot_write_error("Broken pipe (os error 32)"));
    assert!(!is_reboot_write_error("permission denied"));
    assert!(is_expected_usb_drop("libusb: No such device"));
    assert!(is_invalid_state("DFU invalid state"));
}

#[test]
fn flash_progress_phases() {
    let mut p = FlashProgress::new(10);
    let u = p.on_progress(0);
    assert!(u.erase_just_finished);
    assert_eq!(u.position, 0);
    let u = p.on_progress(6);
    assert!(!u.erase_just_finished);
    assert!(!u.write_done);
    let u = p.on_progress(4);
    assert_eq!(u.position, 10);
    assert!(u.write_done);
}

#[test]
fn command_line_rules() {
    let dfu = Command::Dfu { firmware: "fw.bin".to_string(), device: None };
    assert_eq!(unsupported_over_ble(&dfu), Some("dfu"));
    assert_eq!(unsupported_over_ble(&Command::DfuEnter { device: None }), Some("dfu-enter"));
    assert_eq!(unsupported_over_ble(&Command::List), None);
    assert_eq!(ble_unsupported_message("dfu"), "`dfu` is not supported over BLE; use USB");
    assert_eq!(target_device(Some("2"), Some("1")), Some("2"));
    assert_eq!(target_device(None, Some("1")), Some("1"));
    assert_eq!(log_filter(false), "attentio=warn");
}

#[test]
fn completions_not_yet_implemented() {
    assert_eq!(
        completions::execute("bash"),
        Err("'completions' command is not yet implemented".to_string())
    );
}

#[test]
fn settings_file_reads_the_documented_format() {
    let text = "{\n  \"device_name\": \"MyAttentioLight\",\n  \"loglevel\": \"2\"\n}";
    assert_eq!(
        parse_settings_file(text),
        Some(vec![
            ("device_name".to_string(), "MyAttentioLight".to_string()),
            ("loglevel".to_string(), "2".to_string()),
        ])
    );
    let unsorted = "{\"z\": \"1\", \"a\": \"2\"}";
    assert_eq!(
        parse_settings_file(unsorted),
        Some(vec![("a".to_string(), "2".to_string()), ("z".to_string(), "1".to_string())])
    );
    assert_eq!(parse_settings_file("{\"loglevel\": 2}"), None);
    assert_eq!(parse_settings_file("not json"), None);
    assert_eq!(parse_settings_file("{}"), Some(vec![]));
}

#[test]
fn settings_file_written_sorted_and_read_back() {
    let pair = |k: &str, v: &str| (k.to_string(), v.to_string());
    let entries = vec![pair("loglevel", "2"), pair("device_name", "Old"), pair("device_name", "My \"Light\"")];
    let text = settings_file_text(entries.clone());
    assert_eq!(text, "{\n  \"device_name\": \"My \\\"Light\\\"\",\n  \"loglevel\": \"2\"\n}");
    assert_eq!(parse_settings_file(&text), Some(settings_snapshot(entries)));
}

#[test]
fn load_goes_on_past_a_refused_key() {
    let mut report = LoadReport::new();
    load_step(&mut report, &"device_name".to_string(), true);
    load_step(&mut report, &"serial".to_string(), false);
    load_step(&mut report, &"loglevel".to_string(), true);
    assert_eq!(report.applied, 2);
    assert_eq!(report.failed, vec!["serial".to_string()]);
}
