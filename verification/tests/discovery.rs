use attentio::device::config::{is_attentio_device, is_known_device, is_stm_dfu_device};
use attentio::device::discovery::{
    assign_protocol_port, attentio_ports, cache_lookup, cache_remember, detect_device_mode,
    devices_from_ports, dfu_only_device, group_by_serial, name_query_port, pick_usb_info,
    probe_candidates, prompt_choice, prompt_label, resolve_port_serial, select_device,
    serial_from_sysfs, serials_joined, sort_devices, sysfs_serial_path, tty_name, usb_location,
    apply_device_name, AttentioDevice, CdcPort, CdcRole, DeviceMode, PortEntry, PromptChoice,
    probe_step, ProbeAction, ProbeState, RawUsbPort, SerialCache, Transport, UsbDeviceInfo,
    UsbPortInfo,
};
use attentio::error::AttentioError;

fn usb(vid: u16, pid: u16, serial: Option<&str>, product: Option<&str>) -> UsbPortInfo {
    UsbPortInfo {
        vid,
        pid,
        serial_number: serial.map(|s| s.to_string()),
        product: product.map(|s| s.to_string()),
    }
}

fn port(name: &str, info: Option<UsbPortInfo>) -> PortEntry {
    PortEntry { port_name: name.to_string(), usb: info }
}

fn device(serial: &str) -> AttentioDevice {
    AttentioDevice {
        serial: serial.to_string(),
        device_type: None,
        product: None,
        mode: DeviceMode::Normal,
        usb_location: None,
        cdc0: None,
        cdc1: None,
        single_cdc: None,
        transport: Transport::Usb,
        ble_address: None,
        paired: None,
    }
}

fn dual(serial: &str, cdc0: &str, cdc1: &str) -> AttentioDevice {
    let mut d = device(serial);
    d.cdc0 = Some(CdcPort { path: cdc0.to_string(), role: CdcRole::SerialPrints });
    d.cdc1 = Some(CdcPort { path: cdc1.to_string(), role: CdcRole::Protocol });
    d
}

#[test]
fn vid_pid_classification() {
    assert!(is_attentio_device(0x1209, 0xEEA1));
    assert!(!is_attentio_device(0x1209, 0xDF11));
    assert!(is_stm_dfu_device(0x0483, 0xDF11));
    assert!(is_known_device(0x0483, 0xDF11));
    assert!(!is_known_device(0x1234, 0x5678));
}

#[test]
fn mode_from_product_string() {
    assert_eq!(detect_device_mode(None), DeviceMode::Unknown);
    assert_eq!(
        detect_device_mode(Some(&"Attentio DFU Bootloader".to_string())),
        DeviceMode::Bootloader
    );
    assert_eq!(
        detect_device_mode(Some(&"EngEmil.io AttentioLight-1".to_string())),
        DeviceMode::Normal
    );
    assert_eq!(detect_device_mode(Some(&"Other".to_string())), DeviceMode::Unknown);
}

#[test]
fn ports_of_a_device() {
    let d = dual("S1", "/dev/ttyACM0", "/dev/ttyACM1");
    assert_eq!(d.ap_port(), Some("/dev/ttyACM1"));
    assert_eq!(d.serial_port(), Some("/dev/ttyACM0"));
    let paths: Vec<&str> = d.all_ports().iter().map(|p| p.path.as_str()).collect();
    assert_eq!(paths, vec!["/dev/ttyACM0", "/dev/ttyACM1"]);
    let mut single = device("S2");
    single.single_cdc = Some(CdcPort { path: "COM3".to_string(), role: CdcRole::Single });
    assert_eq!(single.ap_port(), Some("COM3"));
    assert_eq!(single.serial_port(), None);
    assert_eq!(device("S3").ap_port(), None);
}

#[test]
fn filter_known_ports() {
    let ports = vec![
        port("/dev/ttyS0", None),
        port("/dev/ttyACM0", Some(usb(0x1209, 0xEEA1, Some("A"), None))),
        port("/dev/ttyUSB0", Some(usb(0x0403, 0x6001, None, None))),
        port("/dev/ttyACM1", Some(usb(0x1209, 0xEEA1, Some("A"), None))),
    ];
    let raw = attentio_ports(ports);
    let names: Vec<&str> = raw.iter().map(|r| r.path.as_str()).collect();
    assert_eq!(names, vec!["/dev/ttyACM0", "/dev/ttyACM1"]);
}

#[test]
fn serial_resolution() {
    assert_eq!(resolve_port_serial(Some("ABC"), Some("SYS".to_string())), "ABC");
    assert_eq!(resolve_port_serial(Some(""), Some("SYS".to_string())), "SYS");
    assert_eq!(resolve_port_serial(None, None), "unknown");
    assert_eq!(serial_from_sysfs("  3A002B000F51363439373834\n"), Some("3A002B000F51363439373834".to_string()));
    assert_eq!(serial_from_sysfs(" \n"), None);
    assert_eq!(tty_name("/dev/ttyACM0"), "ttyACM0");
    assert_eq!(tty_name("COM3"), "COM3");
    assert_eq!(sysfs_serial_path("ttyACM0"), "/sys/class/tty/ttyACM0/device/../serial");
    assert_eq!(usb_location(1, 60), "Bus 001 Device 060");
}

fn raw(path: &str, product: Option<&str>) -> RawUsbPort {
    RawUsbPort { path: path.to_string(), info: usb(0x1209, 0xEEA1, None, product) }
}

#[test]
fn grouping_by_serial() {
    let tagged = vec![
        ("B".to_string(), raw("/dev/ttyACM3", None)),
        ("A".to_string(), raw("/dev/ttyACM1", None)),
        ("B".to_string(), raw("/dev/ttyACM2", None)),
        ("A".to_string(), raw("/dev/ttyACM0", None)),
    ];
    let groups = group_by_serial(tagged);
    assert_eq!(groups.len(), 2);
    assert_eq!(groups[0].serial, "B");
    let b: Vec<&str> = groups[0].ports.iter().map(|p| p.path.as_str()).collect();
    assert_eq!(b, vec!["/dev/ttyACM3", "/dev/ttyACM2"]);
    let a: Vec<&str> = groups[1].ports.iter().map(|p| p.path.as_str()).collect();
    assert_eq!(a, vec!["/dev/ttyACM1", "/dev/ttyACM0"]);
}

#[test]
fn devices_from_dual_and_single_ports() {
    let tagged = vec![
        ("A".to_string(), raw("/dev/ttyACM1", Some("AttentioLight-1"))),
        ("A".to_string(), raw("/dev/ttyACM0", Some("AttentioLight-1"))),
        ("unknown".to_string(), raw("/dev/ttyACM5", None)),
    ];
    let cands = vec![UsbDeviceInfo {
        serial: Some("A".to_string()),
        product: Some("EngEmil.io AttentioLight-1".to_string()),
        location: "Bus 001 Device 002".to_string(),
    }];
    let devices = sort_devices(devices_from_ports(tagged, cands));
    assert_eq!(devices.len(), 2);
    let a = &devices[0];
    assert_eq!(a.serial, "A");
    assert_eq!(a.mode, DeviceMode::Normal);
    assert_eq!(a.cdc0.as_ref().unwrap().path, "/dev/ttyACM0");
    assert_eq!(a.cdc1.as_ref().unwrap().path, "/dev/ttyACM1");
    assert_eq!(a.device_type.as_deref(), Some("EngEmil.io AttentioLight-1"));
    assert_eq!(a.usb_location.as_deref(), Some("Bus 001 Device 002"));
    // Serial unknown with exactly one candidate: its serial is used.
    let u = &devices[1];
    assert_eq!(u.serial, "A");
    assert!(u.single_cdc.is_some());
}

#[test]
fn usb_info_choice() {
    let c = |s: Option<&str>| UsbDeviceInfo {
        serial: s.map(|x| x.to_string()),
        product: None,
        location: "Bus 001 Device 001".to_string(),
    };
    let cands = vec![c(Some("X")), c(None), c(Some("Y"))];
    assert_eq!(pick_usb_info(&cands, "Y"), Some(2));
    assert_eq!(pick_usb_info(&cands, "Z"), None);
    assert_eq!(pick_usb_info(&cands, "unknown"), None);
    assert_eq!(pick_usb_info(&cands[..1], "unknown"), Some(0));
}

#[test]
fn dfu_only_devices() {
    let d = dfu_only_device(0x1209, 0xEEA1, Some((Some("Attentio Bootloader".to_string()), Some("S".to_string()))), 3, 7).unwrap();
    assert_eq!(d.mode, DeviceMode::Bootloader);
    assert_eq!(d.serial, "S");
    assert_eq!(d.usb_location.as_deref(), Some("Bus 003 Device 007"));
    // A normal-mode product is found through its serial ports instead.
    assert!(dfu_only_device(0x1209, 0xEEA1, Some((Some("AttentioLight-1".to_string()), None)), 1, 1).is_none());
    // A blank board that cannot be opened is still listed.
    let blank = dfu_only_device(0x0483, 0xDF11, None, 1, 2).unwrap();
    assert_eq!(blank.serial, "unknown");
    assert!(dfu_only_device(0x1111, 0x2222, None, 1, 2).is_none());
}

#[test]
fn select_by_index_serial_or_only() {
    let list = || vec![device("AAA"), device("BBB")];
    assert_eq!(select_device(list(), Some("2")).unwrap().serial, "BBB");
    assert_eq!(select_device(list(), Some("+1")).unwrap().serial, "AAA");
    assert_eq!(select_device(list(), Some("BBB")).unwrap().serial, "BBB");
    match select_device(list(), Some("3")) {
        Err(AttentioError::DeviceIndexOutOfRange { index, count }) => {
            assert_eq!((index, count), (3, 2))
        }
        other => panic!("unexpected {:?}", other.map(|d| d.serial)),
    }
    match select_device(list(), Some("0")) {
        Err(AttentioError::DeviceIndexOutOfRange { index, .. }) => assert_eq!(index, 0),
        other => panic!("unexpected {:?}", other.map(|d| d.serial)),
    }
    match select_device(list(), Some("CCC")) {
        Err(AttentioError::DeviceSerialNotFound { serial }) => assert_eq!(serial, "CCC"),
        other => panic!("unexpected {:?}", other.map(|d| d.serial)),
    }
    match select_device(list(), None) {
        Err(AttentioError::MultipleDevices { serials }) => assert_eq!(serials, "AAA, BBB"),
        other => panic!("unexpected {:?}", other.map(|d| d.serial)),
    }
    assert_eq!(select_device(vec![device("ONE")], None).unwrap().serial, "ONE");
    assert!(matches!(select_device(vec![], None), Err(AttentioError::DeviceNotFound)));
    assert_eq!(serials_joined(&list()), "AAA, BBB");
}

#[test]
fn prompt_answers() {
    assert_eq!(prompt_choice("", 2), PromptChoice::Cancel);
    assert_eq!(prompt_choice("0\n", 2), PromptChoice::Cancel);
    assert_eq!(prompt_choice(" 2 \n", 2), PromptChoice::Select(1));
    assert_eq!(prompt_choice("3\n", 2), PromptChoice::Invalid);
    assert_eq!(prompt_choice("x\n", 2), PromptChoice::Invalid);
    let mut d = device("S1");
    assert_eq!(prompt_label(&d), "S1");
    d.product = Some("Desk".to_string());
    assert_eq!(prompt_label(&d), "S1 (Desk)");
}

#[test]
fn cache_read_after_write() {
    let mut cache = SerialCache::new();
    assert_eq!(cache_lookup(&cache, "A"), None);
    cache_remember(&mut cache, "A", "Lamp");
    cache_remember(&mut cache, "B", "Desk");
    cache_remember(&mut cache, "A", "Hall");
    assert_eq!(cache_lookup(&cache, "A"), Some("Hall".to_string()));
    assert_eq!(cache_lookup(&cache, "B"), Some("Desk".to_string()));
    assert_eq!(cache.lookup("C"), None);
}

#[test]
fn cdc_roles_and_names() {
    let mut d = dual("S", "COM4", "COM3");
    assert_eq!(probe_candidates(&d), Some(("COM4".to_string(), "COM3".to_string())));
    assign_protocol_port(&mut d, "COM3");
    assert_eq!(d.ap_port(), Some("COM3"));
    assign_protocol_port(&mut d, "COM4");
    assert_eq!(d.ap_port(), Some("COM4"));
    assert_eq!(d.serial_port(), Some("COM3"));
    assert_eq!(d.cdc1.as_ref().unwrap().role, CdcRole::Protocol);

    let mut cache = SerialCache::new();
    assert_eq!(name_query_port(&d), Some("COM4".to_string()));
    apply_device_name(&mut d, Ok("Lamp".to_string()), &mut cache);
    assert_eq!(d.product.as_deref(), Some("Lamp"));
    d.product = None;
    apply_device_name(&mut d, Err(AttentioError::Timeout { seconds: 3 }), &mut cache);
    assert_eq!(d.product.as_deref(), Some("Lamp"));

    let mut boot = dual("B", "a", "b");
    boot.mode = DeviceMode::Bootloader;
    assert_eq!(probe_candidates(&boot), None);
    assert_eq!(name_query_port(&boot), None);
}

#[test]
fn devices_sorted_by_serial() {
    let sorted = sort_devices(vec![device("b"), device("B"), device("a"), device("A2")]);
    let serials: Vec<&str> = sorted.iter().map(|d| d.serial.as_str()).collect();
    assert_eq!(serials, vec!["A2", "B", "a", "b"]);
}

#[test]
fn mode_and_role_names() {
    assert_eq!(DeviceMode::Bootloader.display_name(), "Bootloader");
    assert_eq!(Transport::Ble.display_name(), "BLE");
    assert_eq!(CdcRole::Single.display_name(), "serial");
    assert_eq!(CdcRole::Protocol.display_name(), "protocol");
}

#[test]
fn probe_steps_cache_then_cdc1_then_cdc0() {
    let d = dual("S", "COM3", "COM4");
    let (st, a) = probe_step(&d, Some("COM3".to_string()), ProbeState::Start, false);
    assert_eq!(st, ProbeState::Start);
    assert!(matches!(a, ProbeAction::Adopt { ref protocol, remember: false } if protocol == "COM3"));

    let (st, a) = probe_step(&d, None, ProbeState::Start, false);
    assert_eq!(st, ProbeState::TriedCdc1);
    assert!(matches!(a, ProbeAction::Ping(ref p) if p == "COM4"));
    let (_, a) = probe_step(&d, None, st, true);
    assert!(matches!(a, ProbeAction::Adopt { ref protocol, remember: true } if protocol == "COM4"));

    let (st, a) = probe_step(&d, None, st, false);
    assert_eq!(st, ProbeState::TriedCdc0);
    assert!(matches!(a, ProbeAction::Ping(ref p) if p == "COM3"));
    let (_, a) = probe_step(&d, None, st, true);
    assert!(matches!(a, ProbeAction::Adopt { ref protocol, remember: true } if protocol == "COM3"));
    let (st2, a) = probe_step(&d, None, st, false);
    assert_eq!(st2, ProbeState::TriedCdc0);
    assert!(matches!(a, ProbeAction::KeepDefault));
}

#[test]
fn sort_keeps_equal_serials_in_order() {
    let mut b1 = device("B");
    b1.product = Some("first".to_string());
    let mut b2 = device("B");
    b2.product = Some("second".to_string());
    let sorted = sort_devices(vec![b1, device("C"), b2, device("A")]);
    let view: Vec<(String, Option<String>)> =
        sorted.iter().map(|d| (d.serial.clone(), d.product.clone())).collect();
    assert_eq!(
        view,
        vec![
            ("A".to_string(), None),
            ("B".to_string(), Some("first".to_string())),
            ("B".to_string(), Some("second".to_string())),
            ("C".to_string(), None),
        ]
    );
}
