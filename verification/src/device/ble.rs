//! Choosing the BLE device to talk to: how a `--ble` value or a `ble`
//! command target selects a device, which advertisements match, and how
//! BLE-discovered devices are listed.
//!
//! The device serves the AP over a GATT service (service `1209eea1-0001-…`,
//! TX characteristic `…-0002-…`, RX characteristic `…-0003-…`).

use vstd::prelude::*;
use vstd::string::*;
use vstd::utf8::*;

use crate::error::AttentioError;
use crate::text::{
    join, join_spec, strings_view, chars_of, contains, dec_spec, dec_string, eq_ignore_ascii_case, eq_ignore_ascii_case_spec,
    parse_usize, parse_usize_spec, str_eq,
};

use super::discovery::{
    opt_chars, opt_str_chars, text_contains, AttentioDevice, DeviceMode, Transport,
};

verus! {

/// Advertised device name (in the scan response).
pub const DEVICE_NAME: &'static str = "AttentioLight-1";

/// TX chunk size: ATT default MTU (23) minus the 3-byte write header.
pub const TX_CHUNK_SIZE: usize = 20;

/// How a `--ble` invocation selects which device to connect to.
#[derive(Debug, Clone)]
pub enum BleSelector {
    /// `--ble` with no value — connect to the single advertised AttentioLight-1.
    Any,
    /// `--ble=<name>` — match the advertised local name.
    Name(String),
    /// `--ble=<MAC>` — match the BD_ADDR (case-insensitive).
    Address(String),
    /// `--ble=<N>` — the Nth device (1-based) from `attentio list`'s unified order.
    Index(usize),
}

/// How a selector is described to the user.
pub open spec fn selector_description(sel: BleSelector) -> Seq<char> {
    match sel {
        BleSelector::Any => "AttentioLight-1 (any)"@,
        BleSelector::Name(n) => "name '"@ + n@ + "'"@,
        BleSelector::Address(a) => "address '"@ + a@ + "'"@,
        BleSelector::Index(n) => "index "@ + dec_spec(n as nat),
    }
}

impl BleSelector {
    /// The selector as described to the user (what `Display` prints).
    pub fn description(&self) -> (r: String)
        ensures
            r@ == selector_description(*self),
    {
        match self {
            BleSelector::Any => "AttentioLight-1 (any)".to_owned(),
            BleSelector::Name(n) => {
                let mut r = "name '".to_owned();
                r.append(n.as_str());
                r.append("'");
                r
            },
            BleSelector::Address(a) => {
                let mut r = "address '".to_owned();
                r.append(a.as_str());
                r.append("'");
                r
            },
            BleSelector::Index(n) => {
                let mut r = "index ".to_owned();
                r.append(dec_string(*n as u64).as_str());
                r
            },
        }
    }
}

/// A device found during a discovery scan (for `attentio list`).
#[derive(Debug, Clone)]
pub struct BleDeviceInfo {
    /// BD_ADDR, e.g. "AA:BB:CC:DD:EE:FF".
    pub address: String,
    /// Advertised local name, if present.
    pub name: Option<String>,
}

// ── Classifying a selector ───────────────────────────────────────────────────

/// An ASCII hexadecimal digit.
pub open spec fn is_hex_digit(c: char) -> bool {
    ('0' <= c && c <= '9') || ('a' <= c && c <= 'f') || ('A' <= c && c <= 'F')
}

/// Shaped like `AA:BB:CC:DD:EE:FF`: six colon-separated pairs of hex digits.
pub open spec fn is_mac_spec(s: Seq<char>) -> bool {
    &&& s.len() == 17
    &&& forall|i: int|
        0 <= i < 17 ==> if i % 3 == 2 {
            s[i] == ':'
        } else {
            is_hex_digit(#[trigger] s[i])
        }
}

/// Whether a value looks like a BLE address (`AA:BB:CC:DD:EE:FF`).
pub fn is_mac_address(s: &str) -> (r: bool)
    ensures
        r == is_mac_spec(s@),
{
    let cs = chars_of(s);
    if cs.len() != 17 {
        return false;
    }
    let mut i: usize = 0;
    while i < 17
        invariant
            cs@ == s@,
            cs@.len() == 17,
            i <= 17,
            forall|k: int|
                0 <= k < i ==> if k % 3 == 2 {
                    cs@[k] == ':'
                } else {
                    is_hex_digit(#[trigger] cs@[k])
                },
        decreases 17 - i,
    {
        let c = cs[i];
        let ok = if i % 3 == 2 {
            c == ':'
        } else {
            ('0' <= c && c <= '9') || ('a' <= c && c <= 'f') || ('A' <= c && c <= 'F')
        };
        if !ok {
            proof {
                assert(!(if i % 3 == 2 {
                    cs@[i as int] == ':'
                } else {
                    is_hex_digit(cs@[i as int])
                }));
            }
            return false;
        }
        i = i + 1;
    }
    true
}

/// `r` is the selector the value `v` names: empty selects any device; a
/// positive integer an index; an address-shaped value an address; anything
/// else an advertised name.
pub open spec fn names_selector(r: BleSelector, v: Seq<char>) -> bool {
    if v.len() == 0 {
        r is Any
    } else if parse_usize_spec(v) is Some && parse_usize_spec(v)->0 >= 1 {
        r == BleSelector::Index(parse_usize_spec(v)->0)
    } else if is_mac_spec(v) {
        r matches BleSelector::Address(a) && a@ == v
    } else {
        r matches BleSelector::Name(n) && n@ == v
    }
}

/// The selector a `--ble` value or a `ble` command target names: empty
/// selects any device; a positive integer an index; an address-shaped value
/// an address; anything else an advertised name.
pub fn parse_target(target: Option<&str>) -> (r: BleSelector)
    ensures
        match target {
            None => r is Any,
            Some(v) => names_selector(r, v@),
        },
{
    match target {
        None => BleSelector::Any,
        Some(v) => {
            if v.is_empty() {
                return BleSelector::Any;
            }
            match parse_usize(v) {
                Some(n) => {
                    if n >= 1 {
                        return BleSelector::Index(n);
                    }
                },
                None => {},
            }
            if is_mac_address(v) {
                BleSelector::Address(v.to_owned())
            } else {
                BleSelector::Name(v.to_owned())
            }
        },
    }
}

/// The selector the global `--ble` flag asks for: none without the flag,
/// else the value classified as [`parse_target`] does.
pub fn selector_from_flag(ble: Option<&str>) -> (r: Option<BleSelector>)
    ensures
        ble is None ==> r is None,
        ble matches Some(v) ==> (r matches Some(sel) && names_selector(sel, v@)),
{
    match ble {
        None => None,
        Some(v) => Some(parse_target(Some(v))),
    }
}

// ── Matching advertisements ──────────────────────────────────────────────────

/// A BLE failure with the signature of a stale bond: the link came up and
/// survived service discovery but was dropped at the first
/// encryption-required step.
pub open spec fn bond_mismatch_spec(e: AttentioError) -> bool {
    e matches AttentioError::Ble(m) && bond_mismatch_text(m@)
}

/// A BLE error message with the signature of a stale bond.
pub open spec fn bond_mismatch_text(m: Seq<char>) -> bool {
    text_contains(m, "service discovery"@) || text_contains(m, "did not resolve in time"@)
        || text_contains(m, "subscribe timed out"@) || text_contains(m, "notifications timed out"@)
}

/// Whether a connect/discover/subscribe failure indicates a host/device bond
/// mismatch (used, when the host was already bonded, to decide to re-pair).
pub fn is_bond_mismatch(e: &AttentioError) -> (r: bool)
    ensures
        r == bond_mismatch_spec(*e),
{
    match e {
        AttentioError::Ble(m) => {
            let m = m.as_str();
            contains(m, "service discovery") || contains(m, "did not resolve in time") || contains(
                m,
                "subscribe timed out",
            ) || contains(m, "notifications timed out")
        },
        _ => false,
    }
}

/// Whether an advertisement is an Attentio device: it advertises the
/// Attentio service or carries the device name.
pub fn is_attentio_advert(advertises_service: bool, name: Option<&str>) -> (r: bool)
    ensures
        r == (advertises_service || opt_str_chars(name) == Some(DEVICE_NAME@)),
{
    if advertises_service {
        return true;
    }
    match name {
        Some(n) => str_eq(n, DEVICE_NAME),
        None => false,
    }
}

/// Whether a scanned peripheral matches the selector: for any device, the
/// device name or the advertised service; for a name, that exact local name;
/// for an address, the address up to ASCII case.
pub fn selector_matches(
    sel: &BleSelector,
    name: Option<&str>,
    advertises_service: bool,
    address: &str,
) -> (r: bool)
    requires
        !(sel is Index),
    ensures
        r == (match *sel {
            BleSelector::Any => opt_str_chars(name) == Some(DEVICE_NAME@) || advertises_service,
            BleSelector::Name(n) => opt_str_chars(name) == Some(n@),
            BleSelector::Address(a) => eq_ignore_ascii_case_spec(
                encode_utf8(address@),
                encode_utf8(a@),
            ),
            BleSelector::Index(_) => false,
        }),
{
    match sel {
        BleSelector::Any => {
            let named = match name {
                Some(n) => str_eq(n, DEVICE_NAME),
                None => false,
            };
            named || advertises_service
        },
        BleSelector::Name(want) => match name {
            Some(n) => str_eq(n, want.as_str()),
            None => false,
        },
        BleSelector::Address(a) => eq_ignore_ascii_case(address, a.as_str()),
        BleSelector::Index(_) => false,
    }
}

/// The outcome of one poll of the scan results.
#[derive(Debug)]
pub enum MatchOutcome {
    /// Exactly one peripheral matched.
    One,
    /// Several matched: the selector is ambiguous.
    Ambiguous(AttentioError),
    /// None matched yet; keep scanning.
    NoneYet,
}

/// Decides a poll from the addresses of the matching peripherals.
pub fn match_outcome(addresses: &[String]) -> (r: MatchOutcome)
    ensures
        addresses@.len() == 1 ==> r is One,
        addresses@.len() == 0 ==> r is NoneYet,
        addresses@.len() > 1 ==> (r matches MatchOutcome::Ambiguous(AttentioError::Ble(m)) && m@
            == "multiple BLE devices found ("@ + join_spec(strings_view(addresses@), ", "@)
            + ") \u{2014} specify --ble <name|address>"@),
{
    if addresses.len() == 1 {
        MatchOutcome::One
    } else if addresses.len() == 0 {
        MatchOutcome::NoneYet
    } else {
        let mut m = "multiple BLE devices found (".to_owned();
        m.append(join(addresses, ", ").as_str());
        m.append(") \u{2014} specify --ble <name|address>");
        MatchOutcome::Ambiguous(AttentioError::Ble(m))
    }
}

/// The error after scanning in vain for the selected device.
pub fn not_found_error(sel: &BleSelector) -> (e: AttentioError)
    ensures
        e matches AttentioError::BleNotFound { selector } && selector@ == selector_description(
            *sel,
        ),
{
    AttentioError::BleNotFound { selector: sel.description() }
}

/// Resolves `--ble=<N>` against the unified `attentio list` ordering (USB
/// devices first, then BLE) into the address of the Nth device.
pub fn selector_for_index(devices: &[AttentioDevice], n: usize) -> (r: Result<
    BleSelector,
    AttentioError,
>)
    ensures
        n == 0 || n > devices@.len() ==> (r matches Err(AttentioError::BleNotFound { selector })
            && selector@ == "index "@ + dec_spec(n as nat)),
        1 <= n <= devices@.len() ==> ({
            let d = devices@[n - 1];
            match (d.transport, d.ble_address) {
                (Transport::Ble, Some(a)) => r matches Ok(BleSelector::Address(x)) && x@ == a@,
                (Transport::Ble, None) => r matches Err(AttentioError::Ble(m)) && m@ == "device #"@
                    + dec_spec(n as nat) + " has no BLE address"@,
                (Transport::Usb, _) => r matches Err(AttentioError::Ble(m)) && m@ == "device #"@
                    + dec_spec(n as nat) + " is a USB device \u{2014} omit --ble, or use --device "@
                    + dec_spec(n as nat),
            }
        }),
{
    if n == 0 || n > devices.len() {
        let mut s = "index ".to_owned();
        s.append(dec_string(n as u64).as_str());
        return Err(AttentioError::BleNotFound { selector: s });
    }
    let d = &devices[n - 1];
    let num = dec_string(n as u64);
    match d.transport {
        Transport::Ble => match &d.ble_address {
            Some(a) => Ok(BleSelector::Address(a.clone())),
            None => {
                let mut m = "device #".to_owned();
                m.append(num.as_str());
                m.append(" has no BLE address");
                Err(AttentioError::Ble(m))
            },
        },
        Transport::Usb => {
            let mut m = "device #".to_owned();
            m.append(num.as_str());
            m.append(" is a USB device \u{2014} omit --ble, or use --device ");
            m.append(num.as_str());
            Err(AttentioError::Ble(m))
        },
    }
}

/// Whether `bluetoothctl info` output reports the device as paired.
pub fn paired_from_output(output: &str) -> (r: bool)
    ensures
        r == text_contains(output@, "Paired: yes"@),
{
    contains(output, "Paired: yes")
}

/// The listing entry for an Attentio device found by a BLE scan.
pub fn device_from_ble(info: BleDeviceInfo, paired: Option<bool>) -> (d: AttentioDevice)
    ensures
        d.serial@ == info.address@,
        opt_chars(d.device_type) == Some("AttentioLight-1 (BLE)"@),
        d.product == info.name,
        d.mode == DeviceMode::Normal,
        d.usb_location is None,
        d.cdc0 is None && d.cdc1 is None && d.single_cdc is None,
        d.transport == Transport::Ble,
        d.ble_address == Some(info.address),
        d.paired == paired,
{
    let BleDeviceInfo { address, name } = info;
    AttentioDevice {
        serial: address.clone(),
        device_type: Some("AttentioLight-1 (BLE)".to_owned()),
        product: name,
        mode: DeviceMode::Normal,
        usb_location: None,
        cdc0: None,
        cdc1: None,
        single_cdc: None,
        transport: Transport::Ble,
        ble_address: Some(address),
        paired,
    }
}

// ── Errors of the connect sequence ───────────────────────────────────────────

/// The UTF-8 bytes of a concatenation are the bytes of its parts.
pub proof fn lemma_encode_concat(a: Seq<char>, b: Seq<char>)
    ensures
        encode_utf8(a + b) == encode_utf8(a) + encode_utf8(b),
    decreases a.len(),
{
    if a.len() == 0 {
        assert(a + b =~= b);
        assert(encode_utf8(a) =~= Seq::<u8>::empty());
        assert(Seq::<u8>::empty() + encode_utf8(b) =~= encode_utf8(b));
    } else {
        assert((a + b)[0] == a[0]);
        assert((a + b).drop_first() =~= a.drop_first() + b);
        lemma_encode_concat(a.drop_first(), b);
        assert(encode_utf8(a + b) =~= encode_utf8(a) + encode_utf8(b));
    }
}

/// A text contains any part it is made of.
pub proof fn lemma_contains_part(a: Seq<char>, p: Seq<char>, b: Seq<char>)
    ensures
        text_contains(a + p + b, p),
{
    lemma_encode_concat(a + p, b);
    lemma_encode_concat(a, p);
    let h = encode_utf8(a + p + b);
    let n = encode_utf8(p);
    let i = encode_utf8(a).len() as int;
    assert(h == encode_utf8(a) + n + encode_utf8(b));
    assert(h.subrange(i, i + n.len()) =~= n);
    assert(crate::text::occurs_at(h, n, i));
}

/// The message when a GATT step stalls.
pub open spec fn step_timeout_message(step: Seq<char>, secs: u64) -> Seq<char> {
    step + " timed out after "@ + dec_spec(secs as nat) + "s"@
}

/// The error when a GATT step (subscribe, notifications) stalls.
pub fn step_timeout_error(step: &str, secs: u64) -> (e: AttentioError)
    ensures
        e matches AttentioError::Ble(m) && m@ == step_timeout_message(step@, secs),
{
    let mut m = step.to_owned();
    m.append(" timed out after ");
    m.append(dec_string(secs).as_str());
    m.append("s");
    AttentioError::Ble(m)
}

/// The message when the link drops during service discovery.
pub open spec fn dropped_link_message(cause: Seq<char>, address: Seq<char>) -> Seq<char> {
    "the device dropped the link during "@ + "service discovery"@ + " ("@ + cause
        + "). This usually means a stale/mismatched bond or another central holding the single BLE session. Try: make sure no phone is connected, then `bluetoothctl remove "@
        + address + "` and re-pair."@
}

/// The error when the second connect attempt fails with the link down.
pub fn dropped_link_error(cause: &str, address: &str) -> (e: AttentioError)
    ensures
        e matches AttentioError::Ble(m) && m@ == dropped_link_message(cause@, address@),
{
    let mut m = "the device dropped the link during ".to_owned();
    m.append("service discovery");
    m.append(" (");
    m.append(cause);
    m.append("). This usually means a stale/mismatched bond or another central holding the single BLE session. Try: make sure no phone is connected, then `bluetoothctl remove ");
    m.append(address);
    m.append("` and re-pair.");
    AttentioError::Ble(m)
}

/// The message when the TX/RX characteristics never appear.
pub open spec fn unresolved_message() -> Seq<char> {
    "the Attentio TX/RX characteristics "@ + "did not resolve in time"@
        + " \u{2014} try moving closer, or re-pair the device"@
}

/// The error when the TX/RX characteristics never appear.
pub fn unresolved_error() -> (e: AttentioError)
    ensures
        e matches AttentioError::Ble(m) && m@ == unresolved_message(),
{
    let mut m = "the Attentio TX/RX characteristics ".to_owned();
    m.append("did not resolve in time");
    m.append(" \u{2014} try moving closer, or re-pair the device");
    AttentioError::Ble(m)
}

/// The error when both connect attempts time out.
pub fn connect_timeout_error(secs: u64) -> (e: AttentioError)
    ensures
        e matches AttentioError::Ble(m) && m@ == "connect timed out after "@ + dec_spec(
            secs as nat,
        )
            + "s \u{2014} is the device already connected to a phone or another host? The firmware allows a single BLE session."@,
{
    let mut m = "connect timed out after ".to_owned();
    m.append(dec_string(secs).as_str());
    m.append("s \u{2014} is the device already connected to a phone or another host? The firmware allows a single BLE session.");
    AttentioError::Ble(m)
}

/// The error when the device is not bonded and pairing did not succeed.
pub fn pairing_required_error(address: &str) -> (e: AttentioError)
    ensures
        e matches AttentioError::BlePairing(m) && m@ == "device "@ + address@
            + " is not paired. Pair it once, then retry:\n  bluetoothctl\n    pair "@ + address@
            + "\n    quit\n  (Do NOT 'trust' it \u{2014} a trusted device is auto-connected by BlueZ and the single-session firmware will refuse our connection.)"@,
{
    let mut m = "device ".to_owned();
    m.append(address);
    m.append(" is not paired. Pair it once, then retry:\n  bluetoothctl\n    pair ");
    m.append(address);
    m.append("\n    quit\n  (Do NOT 'trust' it \u{2014} a trusted device is auto-connected by BlueZ and the single-session firmware will refuse our connection.)");
    AttentioError::BlePairing(m)
}

/// The failures of the connect sequence that a stale bond causes are the
/// ones that trigger the bond heal: the link dropping during service
/// discovery, the characteristics not resolving, and the subscribe or
/// notification step stalling.
pub proof fn lemma_stale_bond_errors_heal(cause: Seq<char>, address: Seq<char>, secs: u64)
    ensures
        bond_mismatch_text(dropped_link_message(cause, address)),
        bond_mismatch_text(unresolved_message()),
        bond_mismatch_text(step_timeout_message("subscribe"@, secs)),
        bond_mismatch_text(step_timeout_message("notifications"@, secs)),
{
    let d = dropped_link_message(cause, address);
    let pre = "the device dropped the link during "@;
    let post = " ("@ + cause
        + "). This usually means a stale/mismatched bond or another central holding the single BLE session. Try: make sure no phone is connected, then `bluetoothctl remove "@
        + address + "` and re-pair."@;
    assert(d =~= pre + "service discovery"@ + post);
    lemma_contains_part(pre, "service discovery"@, post);

    let u = unresolved_message();
    assert(u =~= "the Attentio TX/RX characteristics "@ + "did not resolve in time"@
        + " \u{2014} try moving closer, or re-pair the device"@);
    lemma_contains_part(
        "the Attentio TX/RX characteristics "@,
        "did not resolve in time"@,
        " \u{2014} try moving closer, or re-pair the device"@,
    );

    let tail = " after "@ + dec_spec(secs as nat) + "s"@;
    reveal_strlit("subscribe");
    reveal_strlit("notifications");
    reveal_strlit(" timed out after ");
    reveal_strlit("subscribe timed out");
    reveal_strlit("notifications timed out");
    reveal_strlit(" after ");
    assert(step_timeout_message("subscribe"@, secs) =~= Seq::<char>::empty()
        + "subscribe timed out"@ + tail);
    lemma_contains_part(Seq::empty(), "subscribe timed out"@, tail);
    assert(step_timeout_message("notifications"@, secs) =~= Seq::<char>::empty()
        + "notifications timed out"@ + tail);
    lemma_contains_part(Seq::empty(), "notifications timed out"@, tail);
}

} // verus!
