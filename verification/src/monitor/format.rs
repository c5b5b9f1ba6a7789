//! Human-readable formatting for AP protocol packets displayed in the monitor.

use vstd::prelude::*;
use vstd::string::*;

use crate::protocol::packet::{
    ap_error_name, ap_error_name_spec, ApResponse, CMD_CLAIM, CMD_DFU_ENTER, CMD_ERROR,
    CMD_EVT_BUTTON, CMD_EVT_SESSION_END, CMD_EVT_STATE_CHANGE, CMD_GET_METADATA, CMD_GET_STATUS,
    CMD_LED_OFF, CMD_LOG_GET_LEVEL, CMD_LOG_SET_LEVEL, CMD_METADATA_GET, CMD_OK, CMD_PING,
    CMD_POWER_OFF, CMD_POWER_ON, CMD_RELEASE, CMD_SETTINGS_GET, CMD_SETTINGS_LIST,
    CMD_SETTINGS_SET, CMD_SET_BRIGHTNESS, CMD_SET_HSV, CMD_SET_RGB,
};
use crate::text::{dec_spec, dec_string, hex_fixed_spec, hex_fixed_string};

verus! {

/// Each byte as two upper-case hex digits, separated by spaces.
pub open spec fn hex_bytes(d: Seq<u8>) -> Seq<char>
    decreases d.len(),
{
    if d.len() == 0 {
        Seq::empty()
    } else if d.len() == 1 {
        hex_fixed_spec(d[0] as nat, 2)
    } else {
        hex_bytes(d.drop_last()) + " "@ + hex_fixed_spec(d.last() as nat, 2)
    }
}

/// Formats bytes as space-separated upper-case hex pairs (`"0A FF"`).
pub fn format_hex(data: &[u8]) -> (r: String)
    ensures
        r@ == hex_bytes(data@),
{
    let mut r = String::new();
    let mut i: usize = 0;
    while i < data.len()
        invariant
            i <= data@.len(),
            r@ == hex_bytes(data@.take(i as int)),
        decreases data@.len() - i,
    {
        if i > 0 {
            r.append(" ");
        }
        r.append(hex_fixed_string(data[i] as u64, 2).as_str());
        i = i + 1;
        proof {
            let t = data@.take(i as int);
            assert(t.drop_last() =~= data@.take(i - 1));
            assert(t.last() == data@[i - 1]);
            if i == 1 {
                assert(Seq::<char>::empty() + hex_fixed_spec(data@[0] as nat, 2) =~= hex_fixed_spec(
                    data@[0] as nat,
                    2,
                ));
            }
        }
    }
    proof {
        assert(data@.take(data@.len() as int) =~= data@);
    }
    r
}

/// The name of a command ID.
pub open spec fn cmd_name_spec(cmd: u8) -> Seq<char> {
    if cmd == CMD_CLAIM {
        "CLAIM"@
    } else if cmd == CMD_RELEASE {
        "RELEASE"@
    } else if cmd == CMD_PING {
        "PING"@
    } else if cmd == CMD_POWER_ON {
        "POWER_ON"@
    } else if cmd == CMD_POWER_OFF {
        "POWER_OFF"@
    } else if cmd == CMD_LED_OFF {
        "LED_OFF"@
    } else if cmd == CMD_SET_RGB {
        "SET_RGB"@
    } else if cmd == CMD_SET_HSV {
        "SET_HSV"@
    } else if cmd == CMD_SET_BRIGHTNESS {
        "SET_BRIGHTNESS"@
    } else if cmd == CMD_GET_STATUS {
        "GET_STATUS"@
    } else if cmd == CMD_GET_METADATA {
        "GET_METADATA"@
    } else if cmd == CMD_METADATA_GET {
        "METADATA_GET"@
    } else if cmd == CMD_SETTINGS_LIST {
        "SETTINGS_LIST"@
    } else if cmd == CMD_SETTINGS_GET {
        "SETTINGS_GET"@
    } else if cmd == CMD_SETTINGS_SET {
        "SETTINGS_SET"@
    } else if cmd == CMD_LOG_GET_LEVEL {
        "LOG_GET_LEVEL"@
    } else if cmd == CMD_LOG_SET_LEVEL {
        "LOG_SET_LEVEL"@
    } else if cmd == CMD_DFU_ENTER {
        "DFU_ENTER"@
    } else if cmd == CMD_OK {
        "OK"@
    } else if cmd == CMD_ERROR {
        "ERROR"@
    } else if cmd == CMD_EVT_BUTTON {
        "EVT_BUTTON"@
    } else if cmd == CMD_EVT_STATE_CHANGE {
        "EVT_STATE_CHANGE"@
    } else if cmd == CMD_EVT_SESSION_END {
        "EVT_SESSION_END"@
    } else {
        "UNKNOWN"@
    }
}

/// Human-readable name for a command ID.
pub fn cmd_name(cmd: u8) -> (r: &'static str)
    ensures
        r@ == cmd_name_spec(cmd),
{
    match cmd {
        CMD_CLAIM => "CLAIM",
        CMD_RELEASE => "RELEASE",
        CMD_PING => "PING",
        CMD_POWER_ON => "POWER_ON",
        CMD_POWER_OFF => "POWER_OFF",
        CMD_LED_OFF => "LED_OFF",
        CMD_SET_RGB => "SET_RGB",
        CMD_SET_HSV => "SET_HSV",
        CMD_SET_BRIGHTNESS => "SET_BRIGHTNESS",
        CMD_GET_STATUS => "GET_STATUS",
        CMD_GET_METADATA => "GET_METADATA",
        CMD_METADATA_GET => "METADATA_GET",
        CMD_SETTINGS_LIST => "SETTINGS_LIST",
        CMD_SETTINGS_GET => "SETTINGS_GET",
        CMD_SETTINGS_SET => "SETTINGS_SET",
        CMD_LOG_GET_LEVEL => "LOG_GET_LEVEL",
        CMD_LOG_SET_LEVEL => "LOG_SET_LEVEL",
        CMD_DFU_ENTER => "DFU_ENTER",
        CMD_OK => "OK",
        CMD_ERROR => "ERROR",
        CMD_EVT_BUTTON => "EVT_BUTTON",
        CMD_EVT_STATE_CHANGE => "EVT_STATE_CHANGE",
        CMD_EVT_SESSION_END => "EVT_SESSION_END",
        _ => "UNKNOWN",
    }
}

/// The name of a log level in the monitor's display ("?" past DEBUG).
pub open spec fn short_level_name(level: u8) -> Seq<char> {
    if level == 0 {
        "NONE"@
    } else if level == 1 {
        "ERROR"@
    } else if level == 2 {
        "WARN"@
    } else if level == 3 {
        "INFO"@
    } else if level == 4 {
        "DEBUG"@
    } else {
        "?"@
    }
}

fn short_level_name_str(level: u8) -> (r: &'static str)
    ensures
        r@ == short_level_name(level),
{
    match level {
        0 => "NONE",
        1 => "ERROR",
        2 => "WARN",
        3 => "INFO",
        4 => "DEBUG",
        _ => "?",
    }
}

/// The detail shown after an outgoing command's name.
pub open spec fn cmd_payload_spec(cmd: u8, p: Seq<u8>) -> Seq<char> {
    if cmd == CMD_SET_RGB && p.len() >= 3 {
        "[R:"@ + dec_spec(p[0] as nat) + " G:"@ + dec_spec(p[1] as nat) + " B:"@ + dec_spec(
            p[2] as nat,
        ) + "]"@
    } else if cmd == CMD_SET_HSV && p.len() >= 4 {
        "[H:"@ + dec_spec((p[0] + 256 * p[1]) as nat) + " S:"@ + dec_spec(p[2] as nat) + " V:"@
            + dec_spec(p[3] as nat) + "]"@
    } else if cmd == CMD_SET_BRIGHTNESS && p.len() > 0 {
        "["@ + dec_spec(p[0] as nat) + "%]"@
    } else if cmd == CMD_LOG_SET_LEVEL && p.len() > 0 {
        "["@ + dec_spec(p[0] as nat) + " ("@ + short_level_name(p[0]) + ")]"@
    } else if p.len() > 0 {
        "["@ + hex_bytes(p) + "]"@
    } else {
        Seq::empty()
    }
}

/// Formats a command payload for display (outgoing direction).
pub fn format_cmd_payload(cmd: u8, payload: &[u8]) -> (r: String)
    ensures
        r@ == cmd_payload_spec(cmd, payload@),
{
    if cmd == CMD_SET_RGB && payload.len() >= 3 {
        let mut r = "[R:".to_owned();
        r.append(dec_string(payload[0] as u64).as_str());
        r.append(" G:");
        r.append(dec_string(payload[1] as u64).as_str());
        r.append(" B:");
        r.append(dec_string(payload[2] as u64).as_str());
        r.append("]");
        r
    } else if cmd == CMD_SET_HSV && payload.len() >= 4 {
        let h: u64 = payload[0] as u64 + 256 * payload[1] as u64;
        let mut r = "[H:".to_owned();
        r.append(dec_string(h).as_str());
        r.append(" S:");
        r.append(dec_string(payload[2] as u64).as_str());
        r.append(" V:");
        r.append(dec_string(payload[3] as u64).as_str());
        r.append("]");
        r
    } else if cmd == CMD_SET_BRIGHTNESS && payload.len() > 0 {
        let mut r = "[".to_owned();
        r.append(dec_string(payload[0] as u64).as_str());
        r.append("%]");
        r
    } else if cmd == CMD_LOG_SET_LEVEL && payload.len() > 0 {
        let mut r = "[".to_owned();
        r.append(dec_string(payload[0] as u64).as_str());
        r.append(" (");
        r.append(short_level_name_str(payload[0]));
        r.append(")]");
        r
    } else if payload.len() > 0 {
        let mut r = "[".to_owned();
        r.append(format_hex(payload).as_str());
        r.append("]");
        r
    } else {
        String::new()
    }
}

/// Formats an outgoing AP command (host → device) for display.
pub fn format_outgoing(cmd: u8, payload: &[u8]) -> (r: String)
    ensures
        r@ == (if cmd_payload_spec(cmd, payload@).len() == 0 {
            "\u{2192} "@ + cmd_name_spec(cmd)
        } else {
            "\u{2192} "@ + cmd_name_spec(cmd) + " "@ + cmd_payload_spec(cmd, payload@)
        }),
{
    let detail = format_cmd_payload(cmd, payload);
    let mut r = "\u{2192} ".to_owned();
    r.append(cmd_name(cmd));
    if !detail.as_str().is_empty() {
        r.append(" ");
        r.append(detail.as_str());
    }
    r
}

/// The name of a button event code.
pub open spec fn button_event_spec(code: u8) -> Seq<char> {
    if code == 1 {
        "SHORT_PRESS"@
    } else if code == 2 {
        "LONG_PRESS_START"@
    } else if code == 3 {
        "LONG_PRESS_RELEASE"@
    } else if code == 4 {
        "EXTENDED_PRESS_START"@
    } else if code == 5 {
        "EXTENDED_PRESS_RELEASE"@
    } else {
        "UNKNOWN"@
    }
}

/// Human-readable name for a button event code.
pub fn button_event_name(code: u8) -> (r: &'static str)
    ensures
        r@ == button_event_spec(code),
{
    match code {
        0x01 => "SHORT_PRESS",
        0x02 => "LONG_PRESS_START",
        0x03 => "LONG_PRESS_RELEASE",
        0x04 => "EXTENDED_PRESS_START",
        0x05 => "EXTENDED_PRESS_RELEASE",
        _ => "UNKNOWN",
    }
}

/// The name of a session-end reason code.
pub open spec fn session_end_spec(code: u8) -> Seq<char> {
    if code == 0 {
        "RELEASED"@
    } else if code == 1 {
        "TAKEOVER"@
    } else if code == 2 {
        "POWEROFF"@
    } else {
        "UNKNOWN"@
    }
}

/// Human-readable name for a session-end reason code.
pub fn session_end_reason(code: u8) -> (r: &'static str)
    ensures
        r@ == session_end_spec(code),
{
    match code {
        0x00 => "RELEASED",
        0x01 => "TAKEOVER",
        0x02 => "POWEROFF",
        _ => "UNKNOWN",
    }
}

/// The first byte of a payload, or 0 when it is empty.
pub open spec fn first_or_zero(p: Seq<u8>) -> u8 {
    if p.len() > 0 {
        p[0]
    } else {
        0
    }
}

/// How an incoming response or event is displayed.
pub open spec fn incoming_spec(cmd: u8, p: Seq<u8>) -> Seq<char> {
    if cmd == CMD_OK {
        if p.len() == 0 {
            "\u{2190} OK"@
        } else {
            "\u{2190} OK ["@ + hex_bytes(p) + "]"@
        }
    } else if cmd == CMD_ERROR {
        "\u{2190} ERROR: "@ + ap_error_name_spec(first_or_zero(p))
    } else if cmd == CMD_EVT_BUTTON {
        "\u{2190} EVT_BUTTON "@ + button_event_spec(first_or_zero(p))
    } else if cmd == CMD_EVT_STATE_CHANGE {
        "\u{2190} EVT_STATE_CHANGE ["@ + hex_bytes(p) + "]"@
    } else if cmd == CMD_EVT_SESSION_END {
        let session_id: nat = if p.len() >= 3 {
            (p[1] * 256 + p[2]) as nat
        } else {
            0
        };
        if session_id > 0 {
            "\u{2190} EVT_SESSION_END "@ + session_end_spec(first_or_zero(p)) + " (session "@
                + dec_spec(session_id) + ")"@
        } else {
            "\u{2190} EVT_SESSION_END "@ + session_end_spec(first_or_zero(p))
        }
    } else if p.len() == 0 {
        "\u{2190} CMD:0x"@ + hex_fixed_spec(cmd as nat, 2)
    } else {
        "\u{2190} CMD:0x"@ + hex_fixed_spec(cmd as nat, 2) + " ["@ + hex_bytes(p) + "]"@
    }
}

/// Formats an incoming AP response/event (device → host) for display.
pub fn format_incoming(resp: &ApResponse) -> (r: String)
    ensures
        r@ == incoming_spec(resp.cmd, resp.payload@),
{
    let p = resp.payload.as_slice();
    let first: u8 = if p.len() > 0 {
        p[0]
    } else {
        0
    };
    if resp.cmd == CMD_OK {
        if p.len() == 0 {
            "\u{2190} OK".to_owned()
        } else {
            let mut r = "\u{2190} OK [".to_owned();
            r.append(format_hex(p).as_str());
            r.append("]");
            r
        }
    } else if resp.cmd == CMD_ERROR {
        let mut r = "\u{2190} ERROR: ".to_owned();
        r.append(ap_error_name(first));
        r
    } else if resp.cmd == CMD_EVT_BUTTON {
        let mut r = "\u{2190} EVT_BUTTON ".to_owned();
        r.append(button_event_name(first));
        r
    } else if resp.cmd == CMD_EVT_STATE_CHANGE {
        let mut r = "\u{2190} EVT_STATE_CHANGE [".to_owned();
        r.append(format_hex(p).as_str());
        r.append("]");
        r
    } else if resp.cmd == CMD_EVT_SESSION_END {
        let session_id: u64 = if p.len() >= 3 {
            p[1] as u64 * 256 + p[2] as u64
        } else {
            0
        };
        let mut r = "\u{2190} EVT_SESSION_END ".to_owned();
        r.append(session_end_reason(first));
        if session_id > 0 {
            r.append(" (session ");
            r.append(dec_string(session_id).as_str());
            r.append(")");
        }
        r
    } else {
        let mut r = "\u{2190} CMD:0x".to_owned();
        r.append(hex_fixed_string(resp.cmd as u64, 2).as_str());
        if p.len() > 0 {
            r.append(" [");
            r.append(format_hex(p).as_str());
            r.append("]");
        }
        r
    }
}

/// The monitor shows a SET_HSV command as the client encoded it: the hue
/// written low byte first reads back as the same hue.
pub proof fn lemma_hsv_display(h: u16, s: u8, v: u8)
    ensures
        cmd_payload_spec(CMD_SET_HSV, seq![(h % 256) as u8, (h / 256) as u8, s, v]) == "[H:"@
            + dec_spec(h as nat) + " S:"@ + dec_spec(s as nat) + " V:"@ + dec_spec(v as nat)
            + "]"@,
{
    let p = seq![(h % 256) as u8, (h / 256) as u8, s, v];
    assert(p[0] + 256 * p[1] == h);
}

/// Every protocol command byte is shown by its own name, and any other
/// byte as UNKNOWN.
pub proof fn lemma_cmd_names(c: u8)
    ensures
        cmd_name_spec(0x01) == "CLAIM"@,
        cmd_name_spec(0x02) == "RELEASE"@,
        cmd_name_spec(0x03) == "PING"@,
        cmd_name_spec(0x10) == "POWER_ON"@,
        cmd_name_spec(0x11) == "POWER_OFF"@,
        cmd_name_spec(0x20) == "LED_OFF"@,
        cmd_name_spec(0x21) == "SET_RGB"@,
        cmd_name_spec(0x22) == "SET_HSV"@,
        cmd_name_spec(0x23) == "SET_BRIGHTNESS"@,
        cmd_name_spec(0x40) == "GET_STATUS"@,
        cmd_name_spec(0x43) == "GET_METADATA"@,
        cmd_name_spec(0x44) == "METADATA_GET"@,
        cmd_name_spec(0x50) == "SETTINGS_LIST"@,
        cmd_name_spec(0x51) == "SETTINGS_GET"@,
        cmd_name_spec(0x52) == "SETTINGS_SET"@,
        cmd_name_spec(0x60) == "LOG_GET_LEVEL"@,
        cmd_name_spec(0x61) == "LOG_SET_LEVEL"@,
        cmd_name_spec(0x70) == "DFU_ENTER"@,
        cmd_name_spec(0xF0) == "OK"@,
        cmd_name_spec(0xF1) == "ERROR"@,
        cmd_name_spec(0x80) == "EVT_BUTTON"@,
        cmd_name_spec(0x81) == "EVT_STATE_CHANGE"@,
        cmd_name_spec(0x82) == "EVT_SESSION_END"@,
        !(c == 0x01 || c == 0x02 || c == 0x03 || c == 0x10 || c == 0x11 || c == 0x20 || c == 0x21
            || c == 0x22 || c == 0x23 || c == 0x40 || c == 0x43 || c == 0x44 || c == 0x50 || c
            == 0x51 || c == 0x52 || c == 0x60 || c == 0x61 || c == 0x70 || c == 0xF0 || c == 0xF1
            || c == 0x80 || c == 0x81 || c == 0x82) ==> cmd_name_spec(c) == "UNKNOWN"@,
{
}

} // verus!
