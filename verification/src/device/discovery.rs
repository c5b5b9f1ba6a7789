//! Discovered devices and the logic that builds them from enumerated USB
//! serial ports, libusb descriptors and BLE scan results.

use vstd::prelude::*;
use vstd::string::*;
use vstd::utf8::*;

use crate::error::AttentioError;
use crate::sorting::{sort_by_key, sorted_by_key, with_key, SortKey};
use crate::text::{
    chars_of, contains, contains_spec, dec_fixed_spec, dec_fixed_string, join, join_spec, occurs_at,
    parse_usize, parse_usize_spec, push_char, str_eq, strings_view, trim, trim_spec,
};

use super::config::{is_known_device, is_known_spec, is_stm_dfu_device, STM_DFU_PID, STM_DFU_VID};

verus! {

/// Represents the operational mode of a device.
#[derive(Debug, Clone, Copy, PartialEq, Eq, Structural)]
pub enum DeviceMode {
    /// Device is running normal application firmware.
    Normal,
    /// Device is in DFU/bootloader mode.
    Bootloader,
    /// Device mode could not be determined.
    Unknown,
}

impl DeviceMode {
    /// The mode's display name.
    pub fn display_name(&self) -> (r: &'static str)
        ensures
            r@ == (match *self {
                DeviceMode::Normal => "Normal"@,
                DeviceMode::Bootloader => "Bootloader"@,
                DeviceMode::Unknown => "Unknown"@,
            }),
    {
        match self {
            DeviceMode::Normal => "Normal",
            DeviceMode::Bootloader => "Bootloader",
            DeviceMode::Unknown => "Unknown",
        }
    }
}

/// The transport over which a device was discovered.
#[derive(Debug, Clone, Copy, PartialEq, Eq, Structural)]
pub enum Transport {
    /// USB CDC-ACM serial.
    Usb,
    /// Bluetooth Low Energy.
    Ble,
}

impl Transport {
    /// The transport's display name.
    pub fn display_name(&self) -> (r: &'static str)
        ensures
            r@ == (match *self {
                Transport::Usb => "USB"@,
                Transport::Ble => "BLE"@,
            }),
    {
        match self {
            Transport::Usb => "USB",
            Transport::Ble => "BLE",
        }
    }
}

/// Represents a CDC port role on a device.
#[derive(Debug, Clone, Copy, PartialEq, Eq, Structural)]
pub enum CdcRole {
    /// Serial print stream (read-only).
    SerialPrints,
    /// Attentio Protocol (AP) interface.
    Protocol,
    /// Single CDC — role is ambiguous (pre-dual-CDC firmware).
    Single,
}

impl CdcRole {
    /// The role's display name (a single CDC shows as the serial stream).
    pub fn display_name(&self) -> (r: &'static str)
        ensures
            r@ == (match *self {
                CdcRole::Protocol => "protocol"@,
                _ => "serial"@,
            }),
    {
        match self {
            CdcRole::SerialPrints => "serial",
            CdcRole::Protocol => "protocol",
            CdcRole::Single => "serial",
        }
    }
}

/// A CDC port associated with a device.
#[derive(Debug, Clone)]
pub struct CdcPort {
    /// System port path (e.g. `/dev/ttyACM0` on Linux, `COM3` on Windows).
    pub path: String,
    /// Role of this CDC interface.
    pub role: CdcRole,
}

/// A discovered device, potentially with multiple CDC ports.
#[derive(Debug, Clone)]
pub struct AttentioDevice {
    /// USB serial number (chip UID from iSerialNumber descriptor, 24 hex chars).
    pub serial: String,
    /// USB product string (iProduct descriptor).
    pub device_type: Option<String>,
    /// User-assigned device name from persistent settings.
    pub product: Option<String>,
    /// Operational mode (normal application or bootloader/DFU).
    pub mode: DeviceMode,
    /// USB bus location string (e.g. "Bus 001 Device 060").
    pub usb_location: Option<String>,
    /// CDC0 port — serial prints (None if only single CDC).
    pub cdc0: Option<CdcPort>,
    /// CDC1 port — Attentio Protocol interface (None if only single CDC).
    pub cdc1: Option<CdcPort>,
    /// Single CDC port (used when firmware has only one CDC interface).
    pub single_cdc: Option<CdcPort>,
    /// Transport over which this device was discovered.
    pub transport: Transport,
    /// BLE address (BD_ADDR), present only for BLE-discovered devices.
    pub ble_address: Option<String>,
    /// BlueZ pairing status for BLE devices; `None` for USB or when unknown.
    pub paired: Option<bool>,
}

/// The characters of an optional string.
pub open spec fn opt_chars(s: Option<String>) -> Option<Seq<char>> {
    match s {
        Some(t) => Some(t@),
        None => None,
    }
}

/// The characters of an optional string slice.
pub open spec fn opt_str_chars(s: Option<&str>) -> Option<Seq<char>> {
    match s {
        Some(t) => Some(t@),
        None => None,
    }
}

/// The path of an optional port.
pub open spec fn port_path(p: Option<CdcPort>) -> Option<Seq<char>> {
    match p {
        Some(c) => Some(c.path@),
        None => None,
    }
}

/// The ports a device has, in the order CDC0, CDC1, single CDC.
pub open spec fn ports_spec(d: AttentioDevice) -> Seq<CdcPort> {
    let a: Seq<CdcPort> = match d.cdc0 {
        Some(p) => seq![p],
        None => Seq::empty(),
    };
    let b: Seq<CdcPort> = match d.cdc1 {
        Some(p) => seq![p],
        None => Seq::empty(),
    };
    let c: Seq<CdcPort> = match d.single_cdc {
        Some(p) => seq![p],
        None => Seq::empty(),
    };
    a + b + c
}

/// The AP port of a device: CDC1 if it has one, else its single CDC.
pub open spec fn ap_port_spec(d: AttentioDevice) -> Option<Seq<char>> {
    if d.cdc1 is Some {
        port_path(d.cdc1)
    } else {
        port_path(d.single_cdc)
    }
}

impl AttentioDevice {
    /// Returns the AP (Attentio Protocol) port path (CDC1 if dual, single CDC otherwise).
    pub fn ap_port(&self) -> (r: Option<&str>)
        ensures
            opt_str_chars(r) == ap_port_spec(*self),
    {
        match &self.cdc1 {
            Some(p) => Some(p.path.as_str()),
            None => match &self.single_cdc {
                Some(p) => Some(p.path.as_str()),
                None => None,
            },
        }
    }

    /// Returns the serial prints port path (CDC0 if dual, None otherwise).
    pub fn serial_port(&self) -> (r: Option<&str>)
        ensures
            opt_str_chars(r) == port_path(self.cdc0),
    {
        match &self.cdc0 {
            Some(p) => Some(p.path.as_str()),
            None => None,
        }
    }

    /// Returns all ports of this device: CDC0, CDC1, then the single CDC,
    /// each when present.
    pub fn all_ports(&self) -> (r: Vec<&CdcPort>)
        ensures
            r@.len() == ports_spec(*self).len(),
            forall|i: int| 0 <= i < r@.len() ==> *r@[i] == ports_spec(*self)[i],
    {
        let mut ports: Vec<&CdcPort> = Vec::new();
        if let Some(p) = &self.cdc0 {
            ports.push(p);
        }
        if let Some(p) = &self.cdc1 {
            ports.push(p);
        }
        if let Some(p) = &self.single_cdc {
            ports.push(p);
        }
        ports
    }
}

// ── Mode detection ───────────────────────────────────────────────────────────

/// `needle` occurs in the text `hay` (compared by their UTF-8 bytes).
pub open spec fn text_contains(hay: Seq<char>, needle: Seq<char>) -> bool {
    contains_spec(encode_utf8(hay), encode_utf8(needle))
}

/// The mode a USB product string indicates: bootloader when it names
/// "Bootloader" or "DFU", normal when it names the product, else unknown.
pub open spec fn mode_of_product(product: Option<Seq<char>>) -> DeviceMode {
    match product {
        None => DeviceMode::Unknown,
        Some(p) => if text_contains(p, "Bootloader"@) || text_contains(p, "DFU"@) {
            DeviceMode::Bootloader
        } else if text_contains(p, "AttentioLight-1"@) || text_contains(p, "Attentio"@) {
            DeviceMode::Normal
        } else {
            DeviceMode::Unknown
        },
    }
}

/// Detects the device mode from its USB product string.
pub fn detect_device_mode(product: Option<&String>) -> (m: DeviceMode)
    ensures
        m == mode_of_product(
            match product {
                Some(p) => Some(p@),
                None => None,
            },
        ),
{
    let p = match product {
        Some(p) => p.as_str(),
        None => {
            return DeviceMode::Unknown;
        },
    };
    if contains(p, "Bootloader") || contains(p, "DFU") {
        return DeviceMode::Bootloader;
    }
    if contains(p, "AttentioLight-1") || contains(p, "Attentio") {
        return DeviceMode::Normal;
    }
    DeviceMode::Unknown
}

// ── Serial ports reported by enumeration ────────────────────────────────────

/// The USB details that serial-port enumeration reports for a port.
#[derive(Debug, Clone)]
pub struct UsbPortInfo {
    pub vid: u16,
    pub pid: u16,
    pub serial_number: Option<String>,
    pub product: Option<String>,
}

/// An enumerated serial port: its name and, for a USB port, its USB details.
#[derive(Debug, Clone)]
pub struct PortEntry {
    pub port_name: String,
    pub usb: Option<UsbPortInfo>,
}

/// A USB serial port of a known device.
#[derive(Debug)]
pub struct RawUsbPort {
    pub path: String,
    pub info: UsbPortInfo,
}

impl SortKey for RawUsbPort {
    open spec fn key_spec(&self) -> Seq<char> {
        self.path@
    }

    fn sort_key(&self) -> (r: &str) {
        self.path.as_str()
    }
}

impl SortKey for AttentioDevice {
    open spec fn key_spec(&self) -> Seq<char> {
        self.serial@
    }

    fn sort_key(&self) -> (r: &str) {
        self.serial.as_str()
    }
}

/// A USB port of a known (Attentio or blank-board) device.
pub open spec fn is_attentio_port(p: PortEntry) -> bool {
    p.usb matches Some(u) && is_known_spec(u.vid, u.pid)
}

/// The enumeration entry a raw USB port came from.
pub open spec fn as_entry(r: RawUsbPort) -> PortEntry {
    PortEntry { port_name: r.path, usb: Some(r.info) }
}

/// The entries of raw USB ports.
pub open spec fn entries_of(s: Seq<RawUsbPort>) -> Seq<PortEntry> {
    s.map_values(|r: RawUsbPort| as_entry(r))
}

/// The predicate selecting ports of known devices.
pub open spec fn known_port_pred() -> spec_fn(PortEntry) -> bool {
    |p: PortEntry| is_attentio_port(p)
}

/// Keeps the USB ports of known devices, in enumeration order.
pub fn attentio_ports(ports: Vec<PortEntry>) -> (r: Vec<RawUsbPort>)
    ensures
        entries_of(r@) == ports@.filter(known_port_pred()),
{
    let ghost orig = ports@;
    let mut rest = ports;
    let mut out: Vec<RawUsbPort> = Vec::new();
    let n = rest.len();
    let mut i: usize = 0;
    proof {
        assert(orig.skip(0) =~= orig);
        assert(orig.take(0) =~= Seq::<PortEntry>::empty());
        assert(entries_of(out@) =~= Seq::<PortEntry>::empty());
    }
    while i < n
        invariant
            n == orig.len(),
            i <= n,
            rest@ == orig.skip(i as int),
            entries_of(out@) == orig.take(i as int).filter(known_port_pred()),
        decreases n - i,
    {
        let p = rest.remove(0);
        proof {
            assert(p == orig[i as int]);
            assert(rest@ =~= orig.skip(i + 1));
            assert(orig.take(i + 1) =~= orig.take(i as int).push(p));
            orig.take(i as int).lemma_filter_push(p, known_port_pred());
        }
        let ghost before = out@;
        let PortEntry { port_name, usb } = p;
        match usb {
            Some(info) => {
                if is_known_device(info.vid, info.pid) {
                    out.push(RawUsbPort { path: port_name, info });
                    proof {
                        assert(entries_of(out@) =~= entries_of(before).push(p));
                    }
                }
            },
            None => {},
        }
        i = i + 1;
    }
    proof {
        assert(orig.take(n as int) =~= orig);
    }
    out
}

/// The serial number a port is filed under: the one enumeration reported
/// when it is not empty, else the one sysfs gives, else "unknown".
pub open spec fn resolved_serial(reported: Option<Seq<char>>, sysfs: Option<Seq<char>>) -> Seq<
    char,
> {
    if reported is Some && reported->0.len() > 0 {
        reported->0
    } else {
        match sysfs {
            Some(t) => t,
            None => "unknown"@,
        }
    }
}

/// Whether enumeration gave no usable serial, so sysfs is worth reading.
pub fn needs_sysfs_serial(reported: Option<&str>) -> (r: bool)
    ensures
        r == !(reported is Some && reported->0@.len() > 0),
{
    match reported {
        Some(s) => s.is_empty(),
        None => true,
    }
}

/// Resolves the USB serial number of a port from what enumeration reported
/// and, as a fallback, the serial read from sysfs.
pub fn resolve_port_serial(reported: Option<&str>, sysfs_serial: Option<String>) -> (r: String)
    ensures
        r@ == resolved_serial(opt_str_chars(reported), opt_chars(sysfs_serial)),
{
    if let Some(s) = reported {
        if !s.is_empty() {
            return s.to_owned();
        }
    }
    match sysfs_serial {
        Some(t) => t,
        None => "unknown".to_owned(),
    }
}

/// The serial in a sysfs `serial` attribute: its trimmed text, when not empty.
pub fn serial_from_sysfs(content: &str) -> (r: Option<String>)
    ensures
        r is Some <==> trim_spec(content@).len() > 0,
        r matches Some(s) ==> s@ == trim_spec(content@),
{
    let t = trim(content);
    if t.as_str().is_empty() {
        None
    } else {
        Some(t)
    }
}

/// The part of a path after its last '/' (all of it when it has none).
pub open spec fn after_last_slash(s: Seq<char>) -> Seq<char>
    decreases s.len(),
{
    if s.len() == 0 {
        s
    } else if s.last() == '/' {
        Seq::empty()
    } else {
        after_last_slash(s.drop_last()).push(s.last())
    }
}

/// The tty name of a port path (e.g. "/dev/ttyACM0" -> "ttyACM0").
pub fn tty_name(port_path: &str) -> (r: String)
    ensures
        r@ == after_last_slash(port_path@),
{
    let cs = chars_of(port_path);
    let mut start = cs.len();
    proof {
        assert(cs@.take(start as int) =~= cs@);
        assert(after_last_slash(cs@) + cs@.skip(start as int) =~= after_last_slash(cs@));
    }
    while start > 0 && cs[start - 1] != '/'
        invariant
            start <= cs@.len(),
            after_last_slash(cs@) == after_last_slash(cs@.take(start as int)) + cs@.skip(
                start as int,
            ),
        decreases start,
    {
        proof {
            let t = cs@.take(start as int);
            assert(t.drop_last() =~= cs@.take(start - 1));
            assert(t.last() == cs@[start - 1]);
            assert(cs@.skip(start - 1) =~= seq![cs@[start - 1]] + cs@.skip(start as int));
            assert(after_last_slash(cs@.take(start - 1)).push(cs@[start - 1]) + cs@.skip(
                start as int,
            ) =~= after_last_slash(cs@.take(start - 1)) + cs@.skip(start - 1));
        }
        start = start - 1;
    }
    proof {
        assert(after_last_slash(cs@.take(start as int)) =~= Seq::<char>::empty()) by {
            if start > 0 {
                assert(cs@.take(start as int).last() == '/');
            }
        }
        assert(Seq::<char>::empty() + cs@.skip(start as int) =~= cs@.skip(start as int));
    }
    let mut r = String::new();
    let mut k = start;
    while k < cs.len()
        invariant
            start <= k <= cs@.len(),
            r@ == cs@.subrange(start as int, k as int),
        decreases cs@.len() - k,
    {
        push_char(&mut r, cs[k]);
        k = k + 1;
        proof {
            assert(r@ =~= cs@.subrange(start as int, k as int));
        }
    }
    proof {
        assert(cs@.skip(start as int) =~= cs@.subrange(start as int, cs@.len() as int));
    }
    r
}

/// The sysfs attribute holding the USB serial of a tty's parent device.
pub fn sysfs_serial_path(tty: &str) -> (r: String)
    ensures
        r@ == "/sys/class/tty/"@ + tty@ + "/device/../serial"@,
{
    let mut r = "/sys/class/tty/".to_owned();
    r.append(tty);
    r.append("/device/../serial");
    r
}

// ── Grouping ports into devices ──────────────────────────────────────────────

/// The ports filed under one USB serial number.
#[derive(Debug)]
pub struct PortGroup {
    pub serial: String,
    pub ports: Vec<RawUsbPort>,
}

/// Selects the ports filed under the serial `s`.
pub open spec fn serial_is(s: Seq<char>) -> spec_fn((String, RawUsbPort)) -> bool {
    |x: (String, RawUsbPort)| x.0@ == s
}

/// The ports of serial-tagged ports.
pub open spec fn ports_of(t: Seq<(String, RawUsbPort)>) -> Seq<RawUsbPort> {
    t.map_values(|x: (String, RawUsbPort)| x.1)
}

/// The ports filed under `s`, in their original order.
pub open spec fn with_serial(input: Seq<(String, RawUsbPort)>, s: Seq<char>) -> Seq<RawUsbPort> {
    ports_of(input.filter(serial_is(s)))
}

/// `gs` groups the serial-tagged ports `input`: one non-empty group per
/// distinct serial, holding exactly the ports filed under it.
pub open spec fn groups_ok(gs: Seq<PortGroup>, input: Seq<(String, RawUsbPort)>) -> bool {
    &&& forall|a: int, b: int|
        0 <= a < b < gs.len() ==> (#[trigger] gs[a]).serial@ != (#[trigger] gs[b]).serial@
    &&& forall|g: int|
        0 <= g < gs.len() ==> (#[trigger] gs[g]).ports@ == with_serial(input, gs[g].serial@)
            && gs[g].ports@.len() > 0
    &&& forall|k: int|
        0 <= k < input.len() ==> exists|g: int|
            0 <= g < gs.len() && (#[trigger] gs[g]).serial@ == (#[trigger] input[k]).0@
}

proof fn lemma_with_serial_push(input: Seq<(String, RawUsbPort)>, x: (String, RawUsbPort), s: Seq<char>)
    ensures
        with_serial(input.push(x), s) == (if x.0@ == s {
            with_serial(input, s).push(x.1)
        } else {
            with_serial(input, s)
        }),
{
    input.lemma_filter_push(x, serial_is(s));
    if x.0@ == s {
        assert(ports_of(input.filter(serial_is(s)).push(x)) =~= ports_of(
            input.filter(serial_is(s)),
        ).push(x.1));
    }
}

proof fn lemma_with_serial_absent(input: Seq<(String, RawUsbPort)>, s: Seq<char>)
    requires
        forall|k: int| 0 <= k < input.len() ==> (#[trigger] input[k]).0@ != s,
    ensures
        with_serial(input, s).len() == 0,
{
    let pred = serial_is(s);
    assert(input.all(|x: (String, RawUsbPort)| !pred(x))) by {
        assert forall|k: int| 0 <= k < input.len() implies !pred(#[trigger] input[k]) by {}
    }
    input.lemma_all_neg_filter_empty(pred);
}

/// Groups serial-tagged ports by serial number, in order of first appearance.
pub fn group_by_serial(tagged: Vec<(String, RawUsbPort)>) -> (r: Vec<PortGroup>)
    ensures
        groups_ok(r@, tagged@),
{
    let ghost orig = tagged@;
    let mut rest = tagged;
    let mut groups: Vec<PortGroup> = Vec::new();
    let n = rest.len();
    let mut i: usize = 0;
    proof {
        assert(orig.skip(0) =~= orig);
        assert(orig.take(0) =~= Seq::<(String, RawUsbPort)>::empty());
    }
    while i < n
        invariant
            n == orig.len(),
            i <= n,
            rest@ == orig.skip(i as int),
            groups_ok(groups@, orig.take(i as int)),
        decreases n - i,
    {
        let x = rest.remove(0);
        let ghost done = orig.take(i as int);
        proof {
            assert(x == orig[i as int]);
            assert(rest@ =~= orig.skip(i + 1));
            assert(orig.take(i + 1) =~= done.push(x));
        }
        let (s, p) = x;
        let mut j: usize = 0;
        while j < groups.len() && !str_eq(groups[j].serial.as_str(), s.as_str())
            invariant
                j <= groups@.len(),
                forall|k: int| 0 <= k < j ==> (#[trigger] groups@[k]).serial@ != s@,
            decreases groups@.len() - j,
        {
            j = j + 1;
        }
        let ghost before = groups@;
        if j < groups.len() {
            let mut g = groups.remove(j);
            let ghost old_g = g;
            g.ports.push(p);
            groups.insert(j, g);
            proof {
                assert(old_g == before[j as int]);
                assert(s@ == before[j as int].serial@);
                assert(groups@ =~= before.update(j as int, groups@[j as int]));
                assert(groups@[j as int].ports@ == before[j as int].ports@.push(p));
                assert(groups@[j as int].serial@ == before[j as int].serial@);
                assert forall|h: int| 0 <= h < groups@.len() implies (#[trigger] groups@[h]).ports@
                    == with_serial(done.push(x), groups@[h].serial@) && groups@[h].ports@.len()
                    > 0 by {
                    lemma_with_serial_push(done, x, groups@[h].serial@);
                    if h != j {
                        assert(groups@[h] == before[h]);
                    }
                }
                assert forall|k: int| 0 <= k < done.push(x).len() implies exists|g: int|
                    0 <= g < groups@.len() && (#[trigger] groups@[g]).serial@ == (#[trigger] done.push(
                        x,
                    )[k]).0@ by {
                    if k == done.len() {
                        assert(groups@[j as int].serial@ == done.push(x)[k].0@);
                    } else {
                        assert(done.push(x)[k] == done[k]);
                        let g = choose|g: int|
                            0 <= g < before.len() && (#[trigger] before[g]).serial@ == (
                            #[trigger] done[k]).0@;
                        assert(groups@[g].serial@ == before[g].serial@);
                    }
                }
                assert forall|a: int, b: int| 0 <= a < b < groups@.len() implies (
                #[trigger] groups@[a]).serial@ != (#[trigger] groups@[b]).serial@ by {
                    assert(groups@[a].serial@ == before[a].serial@);
                    assert(groups@[b].serial@ == before[b].serial@);
                }
                let gs = groups@;
                let inp = done.push(x);
                assert(forall|a: int, b: int|
                    0 <= a < b < gs.len() ==> (#[trigger] gs[a]).serial@ != (#[trigger] gs[b]).serial@);
                assert(forall|g: int|
                    0 <= g < gs.len() ==> (#[trigger] gs[g]).ports@ == with_serial(inp, gs[g].serial@)
                        && gs[g].ports@.len() > 0);
                assert(forall|k: int|
                    0 <= k < inp.len() ==> exists|g: int|
                        0 <= g < gs.len() && (#[trigger] gs[g]).serial@ == (#[trigger] inp[k]).0@);
                assert(groups_ok(groups@, done.push(x)));
            }
        } else {
            proof {
                assert forall|k: int| 0 <= k < done.len() implies (#[trigger] done[k]).0@
                    != s@ by {
                    let g = choose|g: int|
                        0 <= g < before.len() && (#[trigger] before[g]).serial@ == (
                        #[trigger] done[k]).0@;
                }
                lemma_with_serial_absent(done, s@);
            }
            let mut ports = Vec::new();
            ports.push(p);
            groups.push(PortGroup { serial: s, ports });
            proof {
                let last = before.len() as int;
                assert(groups@ =~= before.push(groups@[last]));
                assert(groups@[last].ports@ =~= seq![p]);
                assert(groups@[last].serial@ == x.0@);
                lemma_with_serial_push(done, x, x.0@);
                assert(with_serial(done.push(x), x.0@) =~= seq![p]);
                assert forall|h: int| 0 <= h < groups@.len() implies (#[trigger] groups@[h]).ports@
                    == with_serial(done.push(x), groups@[h].serial@) && groups@[h].ports@.len()
                    > 0 by {
                    lemma_with_serial_push(done, x, groups@[h].serial@);
                    if h < before.len() {
                        assert(groups@[h] == before[h]);
                    } else {
                        assert(with_serial(done, s@) =~= Seq::<RawUsbPort>::empty());
                    }
                }
                assert forall|k: int| 0 <= k < done.push(x).len() implies exists|g: int|
                    0 <= g < groups@.len() && (#[trigger] groups@[g]).serial@ == (#[trigger] done.push(
                        x,
                    )[k]).0@ by {
                    if k == done.len() {
                        assert(groups@[before.len() as int].serial@ == done.push(x)[k].0@);
                    } else {
                        assert(done.push(x)[k] == done[k]);
                        let g = choose|g: int|
                            0 <= g < before.len() && (#[trigger] before[g]).serial@ == (
                            #[trigger] done[k]).0@;
                        assert(groups@[g] == before[g]);
                    }
                }
                assert forall|a: int, b: int| 0 <= a < b < groups@.len() implies (
                #[trigger] groups@[a]).serial@ != (#[trigger] groups@[b]).serial@ by {
                    assert(groups@[a] == before[a]);
                    if b < before.len() {
                        assert(groups@[b] == before[b]);
                    }
                }
                let gs = groups@;
                let inp = done.push(x);
                assert(forall|a: int, b: int|
                    0 <= a < b < gs.len() ==> (#[trigger] gs[a]).serial@ != (#[trigger] gs[b]).serial@);
                assert(forall|g: int|
                    0 <= g < gs.len() ==> (#[trigger] gs[g]).ports@ == with_serial(inp, gs[g].serial@)
                        && gs[g].ports@.len() > 0);
                assert(forall|k: int|
                    0 <= k < inp.len() ==> exists|g: int|
                        0 <= g < gs.len() && (#[trigger] gs[g]).serial@ == (#[trigger] inp[k]).0@);
                assert(groups_ok(groups@, done.push(x)));
            }
        }
        i = i + 1;
    }
    proof {
        assert(orig.take(n as int) =~= orig);
    }
    groups
}

// ── USB descriptors read through libusb ─────────────────────────────────────

/// What libusb reads from a known device that could be opened: its serial
/// number and product strings and its bus location.
#[derive(Debug, Clone)]
pub struct UsbDeviceInfo {
    pub serial: Option<String>,
    pub product: Option<String>,
    pub location: String,
}

/// The bus location label, e.g. "Bus 001 Device 060".
pub open spec fn usb_location_spec(bus: u8, address: u8) -> Seq<char> {
    "Bus "@ + dec_fixed_spec(bus as nat, 3) + " Device "@ + dec_fixed_spec(address as nat, 3)
}

/// The bus location label of a USB device (`"Bus {:03} Device {:03}"`).
pub fn usb_location(bus: u8, address: u8) -> (r: String)
    ensures
        r@ == usb_location_spec(bus, address),
{
    let mut r = "Bus ".to_owned();
    r.append(dec_fixed_string(bus as u64, 3).as_str());
    r.append(" Device ");
    r.append(dec_fixed_string(address as u64, 3).as_str());
    r
}

/// The candidate reports the serial `s`.
pub open spec fn reports_serial(c: UsbDeviceInfo, s: Seq<char>) -> bool {
    c.serial matches Some(t) && t@ == s
}

/// Which candidate describes the device filed under `usb_serial`: the first
/// one reporting that serial, or — when the serial is unknown — the only
/// candidate if there is exactly one.
pub open spec fn usb_choice(cands: Seq<UsbDeviceInfo>, usb_serial: Seq<char>) -> Option<int> {
    if usb_serial != "unknown"@ {
        if exists|k: int| 0 <= k < cands.len() && reports_serial(#[trigger] cands[k], usb_serial) {
            Some(
                choose|k: int|
                    0 <= k < cands.len() && reports_serial(#[trigger] cands[k], usb_serial)
                        && forall|m: int| 0 <= m < k ==> !reports_serial(#[trigger] cands[m], usb_serial),
            )
        } else {
            None
        }
    } else if cands.len() == 1 {
        Some(0)
    } else {
        None
    }
}

/// Picks the libusb report that belongs to the device filed under `usb_serial`.
pub fn pick_usb_info(cands: &[UsbDeviceInfo], usb_serial: &str) -> (r: Option<usize>)
    ensures
        r matches Some(k) ==> k < cands@.len(),
        usb_serial@ != "unknown"@ ==> (match r {
            Some(k) => reports_serial(cands@[k as int], usb_serial@) && forall|m: int|
                0 <= m < k ==> !reports_serial(#[trigger] cands@[m], usb_serial@),
            None => forall|m: int|
                0 <= m < cands@.len() ==> !reports_serial(#[trigger] cands@[m], usb_serial@),
        }),
        usb_serial@ == "unknown"@ ==> r == (if cands@.len() == 1 {
            Some(0usize)
        } else {
            None
        }),
{
    if !str_eq(usb_serial, "unknown") {
        let mut k: usize = 0;
        while k < cands.len()
            invariant
                usb_serial@ != "unknown"@,
                k <= cands@.len(),
                forall|m: int| 0 <= m < k ==> !reports_serial(#[trigger] cands@[m], usb_serial@),
            decreases cands@.len() - k,
        {
            match &cands[k] {
                UsbDeviceInfo { serial: Some(t), .. } => {
                    if str_eq(t.as_str(), usb_serial) {
                        return Some(k);
                    }
                },
                _ => {},
            }
            k = k + 1;
        }
        None
    } else if cands.len() == 1 {
        Some(0)
    } else {
        None
    }
}

/// The candidate index that [`pick_usb_info`] returns agrees with
/// [`usb_choice`].
pub proof fn lemma_pick_is_choice(cands: Seq<UsbDeviceInfo>, usb_serial: Seq<char>, r: Option<usize>)
    requires
        r matches Some(k) ==> k < cands.len(),
        usb_serial != "unknown"@ ==> (match r {
            Some(k) => reports_serial(cands[k as int], usb_serial) && forall|m: int|
                0 <= m < k ==> !reports_serial(#[trigger] cands[m], usb_serial),
            None => forall|m: int|
                0 <= m < cands.len() ==> !reports_serial(#[trigger] cands[m], usb_serial),
        }),
        usb_serial == "unknown"@ ==> r == (if cands.len() == 1 {
            Some(0usize)
        } else {
            None
        }),
    ensures
        usb_choice(cands, usb_serial) == (match r {
            Some(k) => Some(k as int),
            None => None,
        }),
{
    if usb_serial != "unknown"@ {
        match r {
            Some(k) => {
                let c = choose|c: int|
                    0 <= c < cands.len() && reports_serial(#[trigger] cands[c], usb_serial)
                        && forall|m: int| 0 <= m < c ==> !reports_serial(#[trigger] cands[m], usb_serial);
                assert(reports_serial(cands[k as int], usb_serial));
                if c < k {
                    assert(!reports_serial(cands[c], usb_serial));
                } else if c > k {
                    assert(!reports_serial(cands[k as int], usb_serial));
                }
            },
            None => {},
        }
    }
}

// ── Building devices ─────────────────────────────────────────────────────────

/// The serial a USB device gets: the one its ports were filed under unless
/// that is "unknown", else the one libusb read, else "unknown".
pub open spec fn device_serial_spec(usb_serial: Seq<char>, info: Option<UsbDeviceInfo>) -> Seq<char> {
    if usb_serial != "unknown"@ {
        usb_serial
    } else {
        match info {
            Some(u) => match u.serial {
                Some(t) => t@,
                None => "unknown"@,
            },
            None => "unknown"@,
        }
    }
}

/// A device with CDC ports runs the application unless its product string
/// says bootloader (DFU devices expose no CDC ports).
pub open spec fn cdc_device_mode(m: DeviceMode) -> DeviceMode {
    if m == DeviceMode::Unknown {
        DeviceMode::Normal
    } else {
        m
    }
}

/// `d` is the device built from ports `ps` (sorted by path) filed under
/// `usb_serial`, with libusb's report `info`.
pub open spec fn device_from_group_ok(
    d: AttentioDevice,
    usb_serial: Seq<char>,
    ps: Seq<RawUsbPort>,
    info: Option<UsbDeviceInfo>,
) -> bool {
    &&& d.serial@ == device_serial_spec(usb_serial, info)
    &&& opt_chars(d.device_type) == (match info {
        Some(u) => opt_chars(u.product),
        None => None,
    })
    &&& d.product is None
    &&& d.mode == cdc_device_mode(mode_of_product(opt_chars(ps[0].info.product)))
    &&& opt_chars(d.usb_location) == (match info {
        Some(u) => Some(u.location@),
        None => None,
    })
    &&& if ps.len() >= 2 {
        &&& d.cdc0 matches Some(c0) && c0.path@ == ps[0].path@ && c0.role == CdcRole::SerialPrints
        &&& d.cdc1 matches Some(c1) && c1.path@ == ps[1].path@ && c1.role == CdcRole::Protocol
        &&& d.single_cdc is None
    } else {
        &&& d.cdc0 is None
        &&& d.cdc1 is None
        &&& d.single_cdc matches Some(c) && c.path@ == ps[0].path@ && c.role == CdcRole::Single
    }
    &&& d.transport == Transport::Usb
    &&& d.ble_address is None
    &&& d.paired is None
}

fn copy_string(s: &String) -> (r: String)
    ensures
        r@ == s@,
{
    s.clone()
}

fn copy_opt_string(s: &Option<String>) -> (r: Option<String>)
    ensures
        opt_chars(r) == opt_chars(*s),
{
    match s {
        Some(t) => Some(t.clone()),
        None => None,
    }
}

/// Builds the device for the ports (sorted by path, at least one) filed under
/// `usb_serial`: two or more ports make a dual-CDC device whose first port
/// carries serial prints and second the protocol; one port makes a
/// single-CDC device.
pub fn device_from_group(usb_serial: String, ports: Vec<RawUsbPort>, info: Option<&UsbDeviceInfo>) -> (d: AttentioDevice)
    requires
        ports@.len() > 0,
    ensures
        device_from_group_ok(
            d,
            usb_serial@,
            ports@,
            match info {
                Some(u) => Some(*u),
                None => None,
            },
        ),
{
    let mode = cdc_mode(detect_device_mode(ports[0].info.product.as_ref()));
    let (device_type, usb_location, info_serial) = match info {
        Some(u) => (copy_opt_string(&u.product), Some(copy_string(&u.location)), copy_opt_string(&u.serial)),
        None => (None, None, None),
    };
    let serial = if !str_eq(usb_serial.as_str(), "unknown") {
        usb_serial
    } else {
        match info_serial {
            Some(t) => t,
            None => "unknown".to_owned(),
        }
    };
    let ghost ps = ports@;
    let mut ports = ports;
    if ports.len() >= 2 {
        let first = ports.remove(0);
        let second = ports.remove(0);
        proof {
            assert(first == ps[0] && second == ps[1]);
        }
        AttentioDevice {
            serial,
            device_type,
            product: None,
            mode,
            usb_location,
            cdc0: Some(CdcPort { path: first.path, role: CdcRole::SerialPrints }),
            cdc1: Some(CdcPort { path: second.path, role: CdcRole::Protocol }),
            single_cdc: None,
            transport: Transport::Usb,
            ble_address: None,
            paired: None,
        }
    } else {
        let only = ports.remove(0);
        AttentioDevice {
            serial,
            device_type,
            product: None,
            mode,
            usb_location,
            cdc0: None,
            cdc1: None,
            single_cdc: Some(CdcPort { path: only.path, role: CdcRole::Single }),
            transport: Transport::Usb,
            ble_address: None,
            paired: None,
        }
    }
}

fn cdc_mode(m: DeviceMode) -> (r: DeviceMode)
    ensures
        r == cdc_device_mode(m),
{
    if m == DeviceMode::Unknown {
        DeviceMode::Normal
    } else {
        m
    }
}

/// The libusb report chosen for the device filed under `s`.
pub open spec fn chosen_info(cands: Seq<UsbDeviceInfo>, s: Seq<char>) -> Option<UsbDeviceInfo> {
    match usb_choice(cands, s) {
        Some(k) => Some(cands[k]),
        None => None,
    }
}

/// `r` are the devices built from the groups `gs` of the serial-tagged ports
/// `input`, each from its group's ports sorted by path (`ss`) and the libusb
/// report chosen for its serial.
pub open spec fn built_from(
    r: Seq<AttentioDevice>,
    input: Seq<(String, RawUsbPort)>,
    cands: Seq<UsbDeviceInfo>,
    gs: Seq<PortGroup>,
    ss: Seq<Seq<RawUsbPort>>,
) -> bool {
    &&& groups_ok(gs, input)
    &&& r.len() == gs.len()
    &&& ss.len() == gs.len()
    &&& forall|i: int|
        0 <= i < gs.len() ==> {
            &&& sorted_by_key(#[trigger] ss[i])
            &&& ss[i].to_multiset() =~= gs[i].ports@.to_multiset()
            &&& device_from_group_ok(r[i], gs[i].serial@, ss[i], chosen_info(cands, gs[i].serial@))
        }
}

/// `r` are one device per distinct serial among the ports `input`, built as
/// [`built_from`] describes.
pub open spec fn devices_built(
    r: Seq<AttentioDevice>,
    input: Seq<(String, RawUsbPort)>,
    cands: Seq<UsbDeviceInfo>,
) -> bool {
    exists|gs: Seq<PortGroup>, ss: Seq<Seq<RawUsbPort>>| #[trigger] built_from(r, input, cands, gs, ss)
}

/// Builds the device list from the USB ports of known devices, each tagged
/// with its resolved serial number, and the libusb reports of the known
/// devices that could be opened.
///
/// Ports are grouped by serial; within a group they are sorted by path so
/// that the lower path is CDC0 (serial prints) and the next CDC1 (protocol).
pub fn devices_from_ports(tagged: Vec<(String, RawUsbPort)>, cands: Vec<UsbDeviceInfo>) -> (r: Vec<AttentioDevice>)
    ensures
        devices_built(r@, tagged@, cands@),
{
    let ghost input = tagged@;
    let groups = group_by_serial(tagged);
    let ghost gs = groups@;
    let mut rest = groups;
    let mut out: Vec<AttentioDevice> = Vec::new();
    let ghost mut ss: Seq<Seq<RawUsbPort>> = Seq::empty();
    let n = rest.len();
    let mut i: usize = 0;
    proof {
        assert(gs.skip(0) =~= gs);
    }
    while i < n
        invariant
            n == gs.len(),
            i <= n,
            groups_ok(gs, input),
            rest@ == gs.skip(i as int),
            out@.len() == i,
            ss.len() == i,
            forall|j: int|
                0 <= j < i ==> {
                    &&& sorted_by_key(#[trigger] ss[j])
                    &&& ss[j].to_multiset() =~= gs[j].ports@.to_multiset()
                    &&& device_from_group_ok(
                        out@[j],
                        gs[j].serial@,
                        ss[j],
                        chosen_info(cands@, gs[j].serial@),
                    )
                },
        decreases n - i,
    {
        let g = rest.remove(0);
        proof {
            assert(g == gs[i as int]);
            assert(rest@ =~= gs.skip(i + 1));
        }
        let PortGroup { serial, ports } = g;
        let sorted = sort_by_key(ports);
        proof {
            broadcast use vstd::seq_lib::group_to_multiset_ensures;

            assert(sorted@.len() == sorted@.to_multiset().len());
        }
        let k = pick_usb_info(cands.as_slice(), serial.as_str());
        proof {
            lemma_pick_is_choice(cands@, serial@, k);
        }
        let info = match k {
            Some(k) => Some(&cands[k]),
            None => None,
        };
        let ghost sorted_view = sorted@;
        let d = device_from_group(serial, sorted, info);
        out.push(d);
        proof {
            ss = ss.push(sorted_view);
            assert forall|j: int| 0 <= j < i + 1 implies {
                &&& sorted_by_key(#[trigger] ss[j])
                &&& ss[j].to_multiset() =~= gs[j].ports@.to_multiset()
                &&& device_from_group_ok(
                    out@[j],
                    gs[j].serial@,
                    ss[j],
                    chosen_info(cands@, gs[j].serial@),
                )
            } by {
                if j == i {
                    assert(ss[j] == sorted_view);
                    assert(out@[j] == d);
                }
            }
        }
        i = i + 1;
    }
    proof {
        assert(built_from(out@, input, cands@, gs, ss));
    }
    out
}

/// Sorts devices by serial number for a deterministic listing; devices that
/// share a serial keep their order.
pub fn sort_devices(devices: Vec<AttentioDevice>) -> (r: Vec<AttentioDevice>)
    ensures
        sorted_by_key(r@),
        r@.to_multiset() =~= devices@.to_multiset(),
        forall|k: Seq<char>| #[trigger] with_key(r@, k) == with_key(devices@, k),
{
    sort_by_key(devices)
}

// ── Devices in bootloader mode without serial ports ─────────────────────────

/// The device that a known USB device with no CDC ports stands for: it is
/// listed when it is in bootloader mode, or when it is a blank board (STM32
/// DFU fallback IDs) whose mode cannot be told.
///
/// `strings` holds the product and serial strings libusb read, or `None` when
/// the device could not be opened.
pub fn dfu_only_device(
    vendor_id: u16,
    product_id: u16,
    strings: Option<(Option<String>, Option<String>)>,
    bus: u8,
    address: u8,
) -> (r: Option<AttentioDevice>)
    ensures
        ({
            let (product, serial) = match strings {
                Some((p, s)) => (opt_chars(p), opt_chars(s)),
                None => (None, None),
            };
            let mode = mode_of_product(product);
            let listed = is_known_spec(vendor_id, product_id) && (mode == DeviceMode::Bootloader
                || (vendor_id == STM_DFU_VID && product_id == STM_DFU_PID && mode
                == DeviceMode::Unknown));
            &&& r is Some <==> listed
            &&& r matches Some(d) ==> {
                &&& d.serial@ == (match serial {
                    Some(t) => t,
                    None => "unknown"@,
                })
                &&& opt_chars(d.device_type) == product
                &&& d.product is None
                &&& d.mode == DeviceMode::Bootloader
                &&& opt_chars(d.usb_location) == Some(usb_location_spec(bus, address))
                &&& d.cdc0 is None && d.cdc1 is None && d.single_cdc is None
                &&& d.transport == Transport::Usb
                &&& d.ble_address is None && d.paired is None
            }
        }),
{
    if !is_known_device(vendor_id, product_id) {
        return None;
    }
    let (mode, device_type, serial) = match strings {
        Some((product, serial)) => (detect_device_mode(product.as_ref()), product, serial),
        None => (DeviceMode::Unknown, None, None),
    };
    let is_stm_dfu = is_stm_dfu_device(vendor_id, product_id);
    if mode == DeviceMode::Bootloader || (is_stm_dfu && mode == DeviceMode::Unknown) {
        let serial = match serial {
            Some(s) => s,
            None => "unknown".to_owned(),
        };
        Some(
            AttentioDevice {
                serial,
                device_type,
                product: None,
                mode: DeviceMode::Bootloader,
                usb_location: Some(usb_location(bus, address)),
                cdc0: None,
                cdc1: None,
                single_cdc: None,
                transport: Transport::Usb,
                ble_address: None,
                paired: None,
            },
        )
    } else {
        None
    }
}

// ── Selecting a device ───────────────────────────────────────────────────────

/// The characters of each device's serial.
pub open spec fn serials_view(ds: Seq<AttentioDevice>) -> Seq<Seq<char>> {
    ds.map_values(|d: AttentioDevice| d.serial@)
}

/// The devices' serials separated by ", ".
pub fn serials_joined(devices: &[AttentioDevice]) -> (r: String)
    ensures
        r@ == join_spec(serials_view(devices@), ", "@),
{
    let mut serials: Vec<String> = Vec::new();
    let mut i: usize = 0;
    while i < devices.len()
        invariant
            i <= devices@.len(),
            strings_view(serials@) == serials_view(devices@.take(i as int)),
        decreases devices@.len() - i,
    {
        let ghost prev = serials@;
        serials.push(copy_string(&devices[i].serial));
        i = i + 1;
        proof {
            assert(strings_view(serials@) =~= strings_view(prev).push(devices@[i - 1].serial@));
            assert(serials_view(devices@.take(i as int)) =~= serials_view(devices@.take(i - 1)).push(
                devices@[i - 1].serial@,
            ));
        }
    }
    proof {
        assert(devices@.take(devices@.len() as int) =~= devices@);
    }
    join(serials.as_slice(), ", ")
}

/// The position of the first device with serial `t`, if any.
pub open spec fn serial_index(ds: Seq<AttentioDevice>, t: Seq<char>) -> Option<int> {
    if exists|k: int| 0 <= k < ds.len() && (#[trigger] ds[k]).serial@ == t {
        Some(
            choose|k: int|
                0 <= k < ds.len() && (#[trigger] ds[k]).serial@ == t && forall|m: int|
                    0 <= m < k ==> (#[trigger] ds[m]).serial@ != t,
        )
    } else {
        None
    }
}

proof fn lemma_serial_index_found(ds: Seq<AttentioDevice>, t: Seq<char>, k: int)
    requires
        0 <= k < ds.len(),
        ds[k].serial@ == t,
        forall|m: int| 0 <= m < k ==> (#[trigger] ds[m]).serial@ != t,
    ensures
        serial_index(ds, t) == Some(k),
{
    let c = choose|c: int|
        0 <= c < ds.len() && (#[trigger] ds[c]).serial@ == t && forall|m: int|
            0 <= m < c ==> (#[trigger] ds[m]).serial@ != t;
    assert(0 <= c < ds.len() && ds[c].serial@ == t && forall|m: int|
        0 <= m < c ==> (#[trigger] ds[m]).serial@ != t);
    if c < k {
        assert(ds[c].serial@ != t);
    } else if c > k {
        assert(ds[k].serial@ != t);
    }
}

/// Selects a device by index or serial number, or the only connected device.
///
/// A target that parses as an unsigned integer is a 1-based index into the
/// list (the `#` column of `attentio list`); any other target must equal a
/// device's serial number. Without a target the single connected device is
/// selected; with several, the error lists their serials.
#[verifier::loop_isolation(false)]
pub fn select_device(devices: Vec<AttentioDevice>, target: Option<&str>) -> (r: Result<
    AttentioDevice,
    AttentioError,
>)
    ensures
        match target {
            Some(t) => match parse_usize_spec(t@) {
                Some(index) => if index == 0 || index > devices@.len() {
                    r == Err::<AttentioDevice, AttentioError>(
                        AttentioError::DeviceIndexOutOfRange { index, count: devices@.len() as usize },
                    )
                } else {
                    r == Ok::<AttentioDevice, AttentioError>(devices@[index - 1])
                },
                None => match serial_index(devices@, t@) {
                    Some(k) => r == Ok::<AttentioDevice, AttentioError>(devices@[k]),
                    None => r matches Err(AttentioError::DeviceSerialNotFound { serial }) && serial@
                        == t@,
                },
            },
            None => if devices@.len() == 0 {
                r == Err::<AttentioDevice, AttentioError>(AttentioError::DeviceNotFound)
            } else if devices@.len() == 1 {
                r == Ok::<AttentioDevice, AttentioError>(devices@[0])
            } else {
                r matches Err(AttentioError::MultipleDevices { serials }) && serials@ == join_spec(
                    serials_view(devices@),
                    ", "@,
                )
            },
        },
{
    let ghost ds = devices@;
    let mut devices = devices;
    match target {
        Some(t) => {
            match parse_usize(t) {
                Some(index) => {
                    let count = devices.len();
                    if index == 0 || index > count {
                        return Err(AttentioError::DeviceIndexOutOfRange { index, count });
                    }
                    Ok(devices.remove(index - 1))
                },
                None => {
                    let mut k: usize = 0;
                    while k < devices.len()
                        invariant
                            devices@ == ds,
                            target == Some(t),
                            parse_usize_spec(t@) is None,
                            k <= ds.len(),
                            forall|m: int| 0 <= m < k ==> (#[trigger] ds[m]).serial@ != t@,
                        decreases ds.len() - k,
                    {
                        if str_eq(devices[k].serial.as_str(), t) {
                            let d = devices.remove(k);
                            proof {
                                assert(d == ds[k as int]);
                                lemma_serial_index_found(ds, t@, k as int);
                            }
                            return Ok(d);
                        }
                        k = k + 1;
                    }
                    Err(AttentioError::DeviceSerialNotFound { serial: t.to_owned() })
                },
            }
        },
        None => {
            if devices.len() == 0 {
                Err(AttentioError::DeviceNotFound)
            } else if devices.len() == 1 {
                Ok(devices.remove(0))
            } else {
                Err(AttentioError::MultipleDevices { serials: serials_joined(devices.as_slice()) })
            }
        },
    }
}

/// What an interactive answer to the device prompt selects.
#[derive(Debug, Clone, Copy, PartialEq, Eq, Structural)]
pub enum PromptChoice {
    /// Give up (answer 0, or end of input).
    Cancel,
    /// The device at this 0-based position.
    Select(usize),
    /// Not a valid answer; ask again.
    Invalid,
}

/// The choice an answer line makes among `count` devices.
pub open spec fn prompt_choice_spec(input: Seq<char>, count: nat) -> PromptChoice {
    if input.len() == 0 {
        PromptChoice::Cancel
    } else {
        match parse_usize_spec(trim_spec(input)) {
            Some(n) => if n == 0 {
                PromptChoice::Cancel
            } else if n <= count {
                PromptChoice::Select((n - 1) as usize)
            } else {
                PromptChoice::Invalid
            },
            None => PromptChoice::Invalid,
        }
    }
}

/// Reads an answer line of the device prompt ("Enter choice [0-N]").
pub fn prompt_choice(input: &str, count: usize) -> (r: PromptChoice)
    ensures
        r == prompt_choice_spec(input@, count as nat),
{
    if input.is_empty() {
        return PromptChoice::Cancel;
    }
    let t = trim(input);
    match parse_usize(t.as_str()) {
        Some(n) => if n == 0 {
            PromptChoice::Cancel
        } else if n <= count {
            PromptChoice::Select(n - 1)
        } else {
            PromptChoice::Invalid
        },
        None => PromptChoice::Invalid,
    }
}

/// How a device is listed in the prompt: its serial, followed by its name in
/// parentheses when it has one.
pub fn prompt_label(d: &AttentioDevice) -> (r: String)
    ensures
        r@ == (match d.product {
            Some(name) => d.serial@ + " ("@ + name@ + ")"@,
            None => d.serial@,
        }),
{
    let mut r = copy_string(&d.serial);
    match &d.product {
        Some(name) => {
            r.append(" (");
            r.append(name.as_str());
            r.append(")");
        },
        None => {},
    }
    r
}

// ── Per-serial caches ────────────────────────────────────────────────────────

/// The map the entries describe, later entries overriding earlier ones.
pub open spec fn map_of(s: Seq<(String, String)>) -> Map<Seq<char>, Seq<char>>
    decreases s.len(),
{
    if s.len() == 0 {
        Map::empty()
    } else {
        map_of(s.drop_last()).insert(s.last().0@, s.last().1@)
    }
}

/// No two entries share a key.
pub open spec fn keys_distinct(s: Seq<(String, String)>) -> bool {
    forall|a: int, b: int| 0 <= a < b < s.len() ==> (#[trigger] s[a]).0@ != (#[trigger] s[b]).0@
}

proof fn lemma_map_of_at(s: Seq<(String, String)>, i: int)
    requires
        keys_distinct(s),
        0 <= i < s.len(),
    ensures
        map_of(s).dom().contains(s[i].0@),
        map_of(s)[s[i].0@] == s[i].1@,
    decreases s.len(),
{
    if i < s.len() - 1 {
        lemma_map_of_at(s.drop_last(), i);
        assert(s.drop_last()[i] == s[i]);
        assert(s[i].0@ != s.last().0@);
    }
}

proof fn lemma_map_of_absent(s: Seq<(String, String)>, k: Seq<char>)
    requires
        forall|i: int| 0 <= i < s.len() ==> (#[trigger] s[i]).0@ != k,
    ensures
        !map_of(s).dom().contains(k),
    decreases s.len(),
{
    if s.len() > 0 {
        assert forall|i: int| 0 <= i < s.drop_last().len() implies (#[trigger] s.drop_last()[i]).0@
            != k by {
            assert(s.drop_last()[i] == s[i]);
        }
        lemma_map_of_absent(s.drop_last(), k);
        assert(s.last() == s[s.len() - 1]);
    }
}

proof fn lemma_map_of_update(s: Seq<(String, String)>, i: int, e: (String, String))
    requires
        keys_distinct(s),
        0 <= i < s.len(),
        s[i].0@ == e.0@,
    ensures
        map_of(s.update(i, e)) =~= map_of(s).insert(e.0@, e.1@),
    decreases s.len(),
{
    let u = s.update(i, e);
    if i == s.len() - 1 {
        assert(u.drop_last() =~= s.drop_last());
    } else {
        assert(u.drop_last() =~= s.drop_last().update(i, e));
        assert(keys_distinct(s.drop_last())) by {
            assert forall|a: int, b: int| 0 <= a < b < s.drop_last().len() implies (
            #[trigger] s.drop_last()[a]).0@ != (#[trigger] s.drop_last()[b]).0@ by {
                assert(s.drop_last()[a] == s[a] && s.drop_last()[b] == s[b]);
            }
        }
        assert(s.drop_last()[i] == s[i]);
        lemma_map_of_update(s.drop_last(), i, e);
        assert(s[i].0@ != s.last().0@);
        assert(u.last() == s.last());
    }
}

/// A process-local cache of values keyed by device serial number (the last
/// device name read, or the protocol port found by probing).
pub struct SerialCache {
    entries: Vec<(String, String)>,
}

impl View for SerialCache {
    type V = Map<Seq<char>, Seq<char>>;

    closed spec fn view(&self) -> Map<Seq<char>, Seq<char>> {
        map_of(self.entries@)
    }
}

impl SerialCache {
    #[verifier::type_invariant]
    spec fn entries_distinct(&self) -> bool {
        keys_distinct(self.entries@)
    }

    /// An empty cache.
    pub fn new() -> (c: Self)
        ensures
            c@ == Map::<Seq<char>, Seq<char>>::empty(),
    {
        SerialCache { entries: Vec::new() }
    }

    fn position(&self, serial: &str) -> (r: Option<usize>)
        ensures
            r matches Some(i) ==> i < self.entries@.len() && self.entries@[i as int].0@ == serial@,
            r is None ==> forall|i: int|
                0 <= i < self.entries@.len() ==> (#[trigger] self.entries@[i]).0@ != serial@,
    {
        let mut i: usize = 0;
        while i < self.entries.len()
            invariant
                i <= self.entries@.len(),
                forall|m: int| 0 <= m < i ==> (#[trigger] self.entries@[m]).0@ != serial@,
            decreases self.entries@.len() - i,
        {
            if str_eq(self.entries[i].0.as_str(), serial) {
                return Some(i);
            }
            i = i + 1;
        }
        None
    }

    /// Records `value` for `serial`, replacing any earlier value.
    pub fn remember(&mut self, serial: &str, value: &str)
        ensures
            final(self)@ == old(self)@.insert(serial@, value@),
    {
        proof {
            use_type_invariant(&*self);
        }
        let e = (serial.to_owned(), value.to_owned());
        let pos = self.position(serial);
        let mut entries: Vec<(String, String)> = Vec::new();
        std::mem::swap(&mut entries, &mut self.entries);
        let ghost before = entries@;
        match pos {
            Some(i) => {
                proof {
                    lemma_map_of_update(before, i as int, e);
                }
                entries.set(i, e);
                proof {
                    assert forall|a: int, b: int| 0 <= a < b < entries@.len() implies (
                    #[trigger] entries@[a]).0@ != (#[trigger] entries@[b]).0@ by {
                        if a != i {
                            assert(entries@[a] == before[a]);
                        }
                        if b != i {
                            assert(entries@[b] == before[b]);
                        }
                    }
                }
            },
            None => {
                entries.push(e);
                proof {
                    assert(entries@.drop_last() =~= before);
                    assert forall|a: int, b: int| 0 <= a < b < entries@.len() implies (
                    #[trigger] entries@[a]).0@ != (#[trigger] entries@[b]).0@ by {
                        assert(entries@[a] == before[a]);
                        if b < before.len() {
                            assert(entries@[b] == before[b]);
                        }
                    }
                }
            },
        }
        self.entries = entries;
    }

    /// The value recorded for `serial`, if any.
    pub fn lookup(&self, serial: &str) -> (r: Option<String>)
        ensures
            r is Some <==> self@.dom().contains(serial@),
            r matches Some(v) ==> v@ == self@[serial@],
    {
        proof {
            use_type_invariant(self);
        }
        match self.position(serial) {
            Some(i) => {
                proof {
                    lemma_map_of_at(self.entries@, i as int);
                }
                Some(copy_string(&self.entries[i].1))
            },
            None => {
                proof {
                    lemma_map_of_absent(self.entries@, serial@);
                }
                None
            },
        }
    }
}

/// Records the device name last read from the device with this serial.
pub fn cache_remember(cache: &mut SerialCache, serial: &str, name: &str)
    ensures
        final(cache)@ == old(cache)@.insert(serial@, name@),
{
    cache.remember(serial, name)
}

/// The device name last recorded for this serial, if any.
pub fn cache_lookup(cache: &SerialCache, serial: &str) -> (r: Option<String>)
    ensures
        r is Some <==> cache@.dom().contains(serial@),
        r matches Some(v) ==> v@ == cache@[serial@],
{
    cache.lookup(serial)
}

/// A value read back from the cache is the last one recorded for that
/// serial; recording leaves every other serial's value as it was.
pub proof fn lemma_cache_read_after_write(
    before: Map<Seq<char>, Seq<char>>,
    serial: Seq<char>,
    value: Seq<char>,
    other: Seq<char>,
)
    requires
        other != serial,
    ensures
        before.insert(serial, value).dom().contains(serial),
        before.insert(serial, value)[serial] == value,
        before.insert(serial, value).dom().contains(other) == before.dom().contains(other),
        before.dom().contains(other) ==> before.insert(serial, value)[other] == before[other],
{
}

// ── Settling CDC roles and device names ──────────────────────────────────────

/// The two devices agree on everything but their CDC0 and CDC1 ports.
pub open spec fn same_but_cdc(a: AttentioDevice, b: AttentioDevice) -> bool {
    &&& a.serial == b.serial
    &&& a.device_type == b.device_type
    &&& a.product == b.product
    &&& a.mode == b.mode
    &&& a.usb_location == b.usb_location
    &&& a.single_cdc == b.single_cdc
    &&& a.transport == b.transport
    &&& a.ble_address == b.ble_address
    &&& a.paired == b.paired
}

/// The CDC0 and CDC1 paths of a normal-mode dual-CDC device, whose roles
/// probing the protocol port settles; `None` for any other device.
pub fn probe_candidates(d: &AttentioDevice) -> (r: Option<(String, String)>)
    ensures
        r is Some <==> (d.mode == DeviceMode::Normal && d.cdc0 is Some && d.cdc1 is Some),
        r matches Some((c0, c1)) ==> Some(c0@) == port_path(d.cdc0) && Some(c1@) == port_path(
            d.cdc1,
        ),
{
    if d.mode != DeviceMode::Normal {
        return None;
    }
    match (&d.cdc0, &d.cdc1) {
        (Some(c0), Some(c1)) => Some((copy_string(&c0.path), copy_string(&c1.path))),
        _ => None,
    }
}

/// Makes `protocol_path` the protocol port of a dual-CDC device: when it is
/// not CDC1's path, the two ports swap roles (CDC1's path becomes the serial
/// prints port and CDC0's path the protocol port).
pub fn assign_protocol_port(d: &mut AttentioDevice, protocol_path: &str)
    requires
        old(d).cdc0 is Some,
        old(d).cdc1 is Some,
    ensures
        same_but_cdc(*final(d), *old(d)),
        protocol_path@ == old(d).cdc1->0.path@ ==> *final(d) == *old(d),
        protocol_path@ != old(d).cdc1->0.path@ ==> {
            &&& final(d).cdc0 matches Some(c) && c.path@ == old(d).cdc1->0.path@ && c.role
                == CdcRole::SerialPrints
            &&& final(d).cdc1 matches Some(c) && c.path@ == old(d).cdc0->0.path@ && c.role
                == CdcRole::Protocol
        },
        (protocol_path@ == old(d).cdc0->0.path@ || protocol_path@ == old(d).cdc1->0.path@) ==> (
        final(d).cdc1 matches Some(c) && c.path@ == protocol_path@),
{
    let is_cdc1 = match &d.cdc1 {
        Some(c1) => str_eq(c1.path.as_str(), protocol_path),
        None => false,
    };
    if is_cdc1 {
        return;
    }
    let c0 = d.cdc0.take();
    let c1 = d.cdc1.take();
    match (c0, c1) {
        (Some(c0), Some(c1)) => {
            d.cdc0 = Some(CdcPort { path: c1.path, role: CdcRole::SerialPrints });
            d.cdc1 = Some(CdcPort { path: c0.path, role: CdcRole::Protocol });
        },
        _ => {},
    }
}

/// How far probing a dual-CDC device for its protocol port has come.
#[derive(Debug, Clone, Copy, PartialEq, Eq, Structural)]
pub enum ProbeState {
    /// Nothing tried yet.
    Start,
    /// CDC1 was pinged.
    TriedCdc1,
    /// CDC1 did not answer; CDC0 was pinged.
    TriedCdc0,
}

/// What probing asks for next.
#[derive(Debug)]
pub enum ProbeAction {
    /// Send an AP PING to this port and report whether it answered.
    Ping(String),
    /// Make this port the protocol port, recording it in the per-serial
    /// cache when `remember` is set.
    Adopt { protocol: String, remember: bool },
    /// Neither port answered: keep the default assignment.
    KeepDefault,
}

/// One step of settling which port of a normal-mode dual-CDC device speaks
/// the protocol: a protocol port cached for the device's serial is adopted
/// without probing; otherwise CDC1 is pinged, then CDC0; the first port that
/// answers is adopted and cached; when neither answers the default stays.
///
/// `cached` is only read at `Start`, `answered` only after a ping.
pub fn probe_step(d: &AttentioDevice, cached: Option<String>, st: ProbeState, answered: bool) -> (r: (
    ProbeState,
    ProbeAction,
))
    requires
        d.mode == DeviceMode::Normal,
        d.cdc0 is Some,
        d.cdc1 is Some,
    ensures
        st is Start && cached is Some ==> r.0 == st && r.1 == (ProbeAction::Adopt {
            protocol: cached->0,
            remember: false,
        }),
        st is Start && cached is None ==> r.0 is TriedCdc1 && (r.1 matches ProbeAction::Ping(q)
            && Some(q@) == port_path(d.cdc1)),
        st is TriedCdc1 && answered ==> r.0 == st && (r.1 matches ProbeAction::Adopt {
            protocol: q,
            remember: true,
        } && Some(q@) == port_path(d.cdc1)),
        st is TriedCdc1 && !answered ==> r.0 is TriedCdc0 && (r.1 matches ProbeAction::Ping(q)
            && Some(q@) == port_path(d.cdc0)),
        st is TriedCdc0 && answered ==> r.0 == st && (r.1 matches ProbeAction::Adopt {
            protocol: q,
            remember: true,
        } && Some(q@) == port_path(d.cdc0)),
        st is TriedCdc0 && !answered ==> r.0 == st && r.1 is KeepDefault,
{
    let cdc0 = match &d.cdc0 {
        Some(c) => copy_string(&c.path),
        None => String::new(),
    };
    let cdc1 = match &d.cdc1 {
        Some(c) => copy_string(&c.path),
        None => String::new(),
    };
    match st {
        ProbeState::Start => match cached {
            Some(p) => (st, ProbeAction::Adopt { protocol: p, remember: false }),
            None => (ProbeState::TriedCdc1, ProbeAction::Ping(cdc1)),
        },
        ProbeState::TriedCdc1 => if answered {
            (st, ProbeAction::Adopt { protocol: cdc1, remember: true })
        } else {
            (ProbeState::TriedCdc0, ProbeAction::Ping(cdc0))
        },
        ProbeState::TriedCdc0 => if answered {
            (st, ProbeAction::Adopt { protocol: cdc0, remember: true })
        } else {
            (st, ProbeAction::KeepDefault)
        },
    }
}

/// The port to read a device's name from: the AP port of a normal-mode device.
pub fn name_query_port(d: &AttentioDevice) -> (r: Option<String>)
    ensures
        opt_chars(r) == (if d.mode == DeviceMode::Normal {
            ap_port_spec(*d)
        } else {
            None
        }),
{
    if d.mode != DeviceMode::Normal {
        return None;
    }
    match d.ap_port() {
        Some(p) => Some(p.to_owned()),
        None => None,
    }
}

/// Applies the outcome of reading a device's `device_name` setting: a name
/// read is cached and shown; after a failure the last cached name, if any,
/// is shown instead.
pub fn apply_device_name(
    d: &mut AttentioDevice,
    name: Result<String, AttentioError>,
    cache: &mut SerialCache,
)
    ensures
        final(d).serial == old(d).serial,
        final(d).device_type == old(d).device_type,
        final(d).mode == old(d).mode,
        final(d).usb_location == old(d).usb_location,
        final(d).cdc0 == old(d).cdc0,
        final(d).cdc1 == old(d).cdc1,
        final(d).single_cdc == old(d).single_cdc,
        final(d).transport == old(d).transport,
        final(d).ble_address == old(d).ble_address,
        final(d).paired == old(d).paired,
        match name {
            Ok(n) => {
                &&& final(cache)@ == old(cache)@.insert(old(d).serial@, n@)
                &&& opt_chars(final(d).product) == Some(n@)
            },
            Err(_) => {
                &&& final(cache)@ == old(cache)@
                &&& opt_chars(final(d).product) == (if old(cache)@.dom().contains(old(d).serial@) {
                    Some(old(cache)@[old(d).serial@])
                } else {
                    opt_chars(old(d).product)
                })
            },
        },
{
    match name {
        Ok(n) => {
            cache.remember(d.serial.as_str(), n.as_str());
            d.product = Some(n);
        },
        Err(_) => {
            match cache.lookup(d.serial.as_str()) {
                Some(c) => {
                    d.product = Some(c);
                },
                None => {},
            }
        },
    }
}

/// A text that names the product "AttentioLight-1" names "Attentio".
proof fn lemma_contains_prefix_word(p: Seq<char>)
    requires
        text_contains(p, "AttentioLight-1"@),
    ensures
        text_contains(p, "Attentio"@),
{
    reveal_strlit("AttentioLight-1");
    reveal_strlit("Attentio");
    reveal_strlit("Light-1");
    assert("AttentioLight-1"@ =~= "Attentio"@ + "Light-1"@);
    crate::device::ble::lemma_encode_concat("Attentio"@, "Light-1"@);
    let h = encode_utf8(p);
    let n = encode_utf8("AttentioLight-1"@);
    let a = encode_utf8("Attentio"@);
    let i = choose|i: int| occurs_at(h, n, i);
    assert(occurs_at(h, n, i));
    assert(n.subrange(0, a.len() as int) =~= a);
    assert(h.subrange(i, i + a.len()) =~= n.subrange(0, a.len() as int));
    assert(occurs_at(h, a, i));
}

/// A product string that names the bootloader or DFU marks a device in
/// bootloader mode; otherwise one that names Attentio marks normal mode;
/// any other string, or none, leaves the mode unknown.
pub proof fn lemma_product_modes(p: Seq<char>)
    ensures
        text_contains(p, "Bootloader"@) ==> mode_of_product(Some(p)) == DeviceMode::Bootloader,
        text_contains(p, "DFU"@) ==> mode_of_product(Some(p)) == DeviceMode::Bootloader,
        !text_contains(p, "Bootloader"@) && !text_contains(p, "DFU"@) && text_contains(
            p,
            "Attentio"@,
        ) ==> mode_of_product(Some(p)) == DeviceMode::Normal,
        !text_contains(p, "Bootloader"@) && !text_contains(p, "DFU"@) && !text_contains(
            p,
            "Attentio"@,
        ) ==> mode_of_product(Some(p)) == DeviceMode::Unknown,
        mode_of_product(None) == DeviceMode::Unknown,
{
    if text_contains(p, "AttentioLight-1"@) {
        lemma_contains_prefix_word(p);
    }
}

} // verus!
