//! The errors that device discovery, transports and the protocol client report.

use vstd::prelude::*;
use vstd::string::*;

use crate::text::{dec_spec, dec_string};

verus! {

/// Errors reported by the library.
///
/// The `Serial` and `Io` variants carry the message of the underlying
/// serial-port or I/O error.
#[derive(Debug, Clone, PartialEq, Eq)]
pub enum AttentioError {
    DeviceNotFound,
    MultipleDevices { serials: String },
    DeviceSerialNotFound { serial: String },
    DeviceIndexOutOfRange { index: usize, count: usize },
    PortBusy { port: String },
    Serial(String),
    Io(String),
    Protocol { message: String },
    Timeout { seconds: u64 },
    Ble(String),
    BleNotFound { selector: String },
    BlePairing(String),
    Other(String),
}

/// The name of an error's variant, as reported in JSON output.
pub open spec fn error_type_spec(e: AttentioError) -> Seq<char> {
    match e {
        AttentioError::DeviceNotFound => "DeviceNotFound"@,
        AttentioError::MultipleDevices { .. } => "MultipleDevices"@,
        AttentioError::DeviceSerialNotFound { .. } => "DeviceSerialNotFound"@,
        AttentioError::DeviceIndexOutOfRange { .. } => "DeviceIndexOutOfRange"@,
        AttentioError::PortBusy { .. } => "PortBusy"@,
        AttentioError::Serial(_) => "Serial"@,
        AttentioError::Io(_) => "Io"@,
        AttentioError::Protocol { .. } => "Protocol"@,
        AttentioError::Timeout { .. } => "Timeout"@,
        AttentioError::Ble(_) => "Ble"@,
        AttentioError::BleNotFound { .. } => "BleNotFound"@,
        AttentioError::BlePairing(_) => "BlePairing"@,
        AttentioError::Other(_) => "Other"@,
    }
}

/// The human-readable text of an error.
pub open spec fn message_spec(e: AttentioError) -> Seq<char> {
    match e {
        AttentioError::DeviceNotFound => "no device(s) found"@,
        AttentioError::MultipleDevices { serials } =>
            "multiple devices found \u{2014} use --device <#> or --device <serial> to select one (run 'attentio list' to see devices): "@
                + serials@,
        AttentioError::DeviceSerialNotFound { serial } => "device with serial '"@ + serial@
            + "' not found"@,
        AttentioError::DeviceIndexOutOfRange { index, count } => "device #"@ + dec_spec(
            index as nat,
        ) + " not found \u{2014} only "@ + dec_spec(count as nat)
            + " device(s) connected. Run 'attentio list' to see available devices."@,
        AttentioError::PortBusy { port } => "port "@ + port@
            + " is busy \u{2014} another process has it open"@,
        AttentioError::Serial(m) => "serial port error: "@ + m@,
        AttentioError::Io(m) => "I/O error: "@ + m@,
        AttentioError::Protocol { message } => "protocol error: "@ + message@,
        AttentioError::Timeout { seconds } => "command timed out after "@ + dec_spec(seconds as nat)
            + "s"@,
        AttentioError::Ble(m) => "BLE error: "@ + m@,
        AttentioError::BleNotFound { selector } => "no BLE device found matching "@ + selector@,
        AttentioError::BlePairing(m) => "BLE pairing/bonding failed: "@ + m@,
        AttentioError::Other(m) => m@,
    }
}

/// `e` is a protocol error whose message is `msg`.
pub open spec fn is_protocol_error(e: AttentioError, msg: Seq<char>) -> bool {
    e matches AttentioError::Protocol { message } && message@ == msg
}

impl AttentioError {
    /// Whether this error says the port is held by another process.
    pub fn is_port_busy(&self) -> (r: bool)
        ensures
            r == (self is PortBusy),
    {
        match self {
            AttentioError::PortBusy { .. } => true,
            _ => false,
        }
    }

    /// The variant's name, as reported in JSON output.
    pub fn error_type(&self) -> (r: &'static str)
        ensures
            r@ == error_type_spec(*self),
    {
        match self {
            AttentioError::DeviceNotFound => "DeviceNotFound",
            AttentioError::MultipleDevices { .. } => "MultipleDevices",
            AttentioError::DeviceSerialNotFound { .. } => "DeviceSerialNotFound",
            AttentioError::DeviceIndexOutOfRange { .. } => "DeviceIndexOutOfRange",
            AttentioError::PortBusy { .. } => "PortBusy",
            AttentioError::Serial(_) => "Serial",
            AttentioError::Io(_) => "Io",
            AttentioError::Protocol { .. } => "Protocol",
            AttentioError::Timeout { .. } => "Timeout",
            AttentioError::Ble(_) => "Ble",
            AttentioError::BleNotFound { .. } => "BleNotFound",
            AttentioError::BlePairing(_) => "BlePairing",
            AttentioError::Other(_) => "Other",
        }
    }

    /// The human-readable text of the error (what `Display` prints).
    pub fn message(&self) -> (r: String)
        ensures
            r@ == message_spec(*self),
    {
        match self {
            AttentioError::DeviceNotFound => "no device(s) found".to_owned(),
            AttentioError::MultipleDevices { serials } => {
                let mut r = "multiple devices found \u{2014} use --device <#> or --device <serial> to select one (run 'attentio list' to see devices): ".to_owned();
                r.append(serials.as_str());
                r
            },
            AttentioError::DeviceSerialNotFound { serial } => {
                let mut r = "device with serial '".to_owned();
                r.append(serial.as_str());
                r.append("' not found");
                r
            },
            AttentioError::DeviceIndexOutOfRange { index, count } => {
                let mut r = "device #".to_owned();
                r.append(dec_string(*index as u64).as_str());
                r.append(" not found \u{2014} only ");
                r.append(dec_string(*count as u64).as_str());
                r.append(" device(s) connected. Run 'attentio list' to see available devices.");
                r
            },
            AttentioError::PortBusy { port } => {
                let mut r = "port ".to_owned();
                r.append(port.as_str());
                r.append(" is busy \u{2014} another process has it open");
                r
            },
            AttentioError::Serial(m) => {
                let mut r = "serial port error: ".to_owned();
                r.append(m.as_str());
                r
            },
            AttentioError::Io(m) => {
                let mut r = "I/O error: ".to_owned();
                r.append(m.as_str());
                r
            },
            AttentioError::Protocol { message } => {
                let mut r = "protocol error: ".to_owned();
                r.append(message.as_str());
                r
            },
            AttentioError::Timeout { seconds } => {
                let mut r = "command timed out after ".to_owned();
                r.append(dec_string(*seconds).as_str());
                r.append("s");
                r
            },
            AttentioError::Ble(m) => {
                let mut r = "BLE error: ".to_owned();
                r.append(m.as_str());
                r
            },
            AttentioError::BleNotFound { selector } => {
                let mut r = "no BLE device found matching ".to_owned();
                r.append(selector.as_str());
                r
            },
            AttentioError::BlePairing(m) => {
                let mut r = "BLE pairing/bonding failed: ".to_owned();
                r.append(m.as_str());
                r
            },
            AttentioError::Other(m) => m.as_str().to_owned(),
        }
    }
}

// ── JSON context ─────────────────────────────────────────────────────────────

/// `s` split at every ", ", scanning from the front (`str::split(", ")`).
pub open spec fn split_list(s: Seq<char>) -> Seq<Seq<char>>
    decreases s.len(),
{
    if s.len() == 0 {
        seq![Seq::empty()]
    } else if s.len() >= 2 && s[0] == ',' && s[1] == ' ' {
        seq![Seq::<char>::empty()] + split_list(s.skip(2))
    } else {
        let r = split_list(s.skip(1));
        seq![seq![s[0]] + r[0]] + r.skip(1)
    }
}

/// `ps` with `cur` in front of its first part.
pub open spec fn with_front(cur: Seq<char>, ps: Seq<Seq<char>>) -> Seq<Seq<char>> {
    seq![cur + ps[0]] + ps.skip(1)
}

proof fn lemma_split_nonempty(s: Seq<char>)
    ensures
        split_list(s).len() >= 1,
    decreases s.len(),
{
    if s.len() > 0 {
        if s.len() >= 2 && s[0] == ',' && s[1] == ' ' {
            lemma_split_nonempty(s.skip(2));
        } else {
            lemma_split_nonempty(s.skip(1));
        }
    }
}

/// Splits a ", "-separated list into its parts.
pub fn split_list_exec(s: &str) -> (r: Vec<String>)
    ensures
        crate::text::strings_view(r@) == split_list(s@),
{
    let cs = crate::text::chars_of(s);
    let mut done: Vec<String> = Vec::new();
    let mut cur: Vec<char> = Vec::new();
    let mut i: usize = 0;
    proof {
        assert(cs@.skip(0) =~= cs@);
        lemma_split_nonempty(cs@);
        assert(with_front(Seq::empty(), split_list(cs@)) =~= split_list(cs@));
        assert(crate::text::strings_view(done@) =~= Seq::<Seq<char>>::empty());
    }
    while i < cs.len()
        invariant
            cs@ == s@,
            i <= cs@.len(),
            split_list(s@) == crate::text::strings_view(done@) + with_front(
                cur@,
                split_list(cs@.skip(i as int)),
            ),
        decreases cs@.len() - i,
    {
        let ghost rest = cs@.skip(i as int);
        proof {
            lemma_split_nonempty(rest);
        }
        if i + 1 < cs.len() && cs[i] == ',' && cs[i + 1] == ' ' {
            proof {
                assert(rest[0] == ',' && rest[1] == ' ');
                assert(rest.skip(2) =~= cs@.skip(i + 2));
                lemma_split_nonempty(rest.skip(2));
            }
            let ghost before = done@;
            done.push(crate::text::string_from_chars(cur.as_slice()));
            proof {
                assert(crate::text::strings_view(done@) =~= crate::text::strings_view(before).push(
                    cur@,
                ));
                let tail = split_list(rest.skip(2));
                assert(split_list(rest) == seq![Seq::<char>::empty()] + tail);
                assert(with_front(cur@, split_list(rest)) =~= seq![cur@] + tail);
                assert(with_front(Seq::empty(), tail) =~= tail);
                assert(crate::text::strings_view(before) + (seq![cur@] + tail) =~= crate::text::strings_view(
                    done@,
                ) + with_front(Seq::empty(), tail));
            }
            cur = Vec::new();
            i = i + 2;
        } else {
            let c = cs[i];
            proof {
                assert(rest[0] == c);
                assert(!(rest.len() >= 2 && rest[0] == ',' && rest[1] == ' '));
                assert(rest.skip(1) =~= cs@.skip(i + 1));
                lemma_split_nonempty(rest.skip(1));
                let r = split_list(rest.skip(1));
                assert(split_list(rest) == seq![seq![c] + r[0]] + r.skip(1));
                assert(cur@ + (seq![c] + r[0]) =~= cur@.push(c) + r[0]);
                assert((seq![seq![c] + r[0]] + r.skip(1)).skip(1) =~= r.skip(1));
                assert(with_front(cur@, split_list(rest)) =~= with_front(cur@.push(c), r));
            }
            cur.push(c);
            i = i + 1;
        }
    }
    proof {
        assert(cs@.skip(i as int) =~= Seq::<char>::empty());
        assert(split_list(Seq::<char>::empty()) == seq![Seq::<char>::empty()]);
        assert(with_front(cur@, seq![Seq::<char>::empty()]) =~= seq![cur@]);
    }
    let ghost before = done@;
    done.push(crate::text::string_from_chars(cur.as_slice()));
    proof {
        assert(crate::text::strings_view(done@) =~= crate::text::strings_view(before).push(cur@));
    }
    done
}

/// A value of an error's JSON context.
#[derive(Debug, Clone, PartialEq, Eq)]
pub enum ContextValue {
    Text(String),
    Number(u64),
    List(Vec<String>),
}

fn text_entry(key: &str, value: &String) -> (e: (String, ContextValue))
    ensures
        e.0@ == key@,
        e.1 matches ContextValue::Text(t) && t@ == value@,
{
    (key.to_owned(), ContextValue::Text(value.clone()))
}

impl AttentioError {
    /// The fields an error adds to a JSON error report, in order.
    pub fn context_entries(&self) -> (r: Vec<(String, ContextValue)>)
        ensures
            match *self {
                AttentioError::MultipleDevices { serials } => r@.len() == 1 && r@[0].0@
                    == "available_devices"@ && (r@[0].1 matches ContextValue::List(l)
                    && crate::text::strings_view(l@) == split_list(serials@)),
                AttentioError::DeviceSerialNotFound { serial } => r@.len() == 1 && r@[0].0@
                    == "requested_serial"@ && (r@[0].1 matches ContextValue::Text(t) && t@
                    == serial@),
                AttentioError::DeviceIndexOutOfRange { index, count } => r@.len() == 2 && r@[0].0@
                    == "requested_index"@ && r@[0].1 == ContextValue::Number(index as u64)
                    && r@[1].0@ == "device_count"@ && r@[1].1 == ContextValue::Number(
                    count as u64,
                ),
                AttentioError::PortBusy { port } => r@.len() == 1 && r@[0].0@ == "port"@ && (
                r@[0].1 matches ContextValue::Text(t) && t@ == port@),
                AttentioError::Timeout { seconds } => r@.len() == 1 && r@[0].0@
                    == "timeout_seconds"@ && r@[0].1 == ContextValue::Number(seconds),
                AttentioError::Protocol { message } => r@.len() == 1 && r@[0].0@
                    == "protocol_message"@ && (r@[0].1 matches ContextValue::Text(t) && t@
                    == message@),
                AttentioError::BleNotFound { selector } => r@.len() == 1 && r@[0].0@
                    == "selector"@ && (r@[0].1 matches ContextValue::Text(t) && t@ == selector@),
                _ => r@.len() == 0,
            },
    {
        let mut r: Vec<(String, ContextValue)> = Vec::new();
        match self {
            AttentioError::MultipleDevices { serials } => {
                r.push(("available_devices".to_owned(), ContextValue::List(split_list_exec(serials.as_str()))));
            },
            AttentioError::DeviceSerialNotFound { serial } => {
                r.push(text_entry("requested_serial", serial));
            },
            AttentioError::DeviceIndexOutOfRange { index, count } => {
                r.push(("requested_index".to_owned(), ContextValue::Number(*index as u64)));
                r.push(("device_count".to_owned(), ContextValue::Number(*count as u64)));
            },
            AttentioError::PortBusy { port } => {
                r.push(text_entry("port", port));
            },
            AttentioError::Timeout { seconds } => {
                r.push(("timeout_seconds".to_owned(), ContextValue::Number(*seconds)));
            },
            AttentioError::Protocol { message } => {
                r.push(text_entry("protocol_message", message));
            },
            AttentioError::BleNotFound { selector } => {
                r.push(text_entry("selector", selector));
            },
            _ => {},
        }
        r
    }
}

} // verus!
