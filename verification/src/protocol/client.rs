//! The AP client's logic: naming the status bytes, turning responses into
//! payloads or errors, encoding requests and decoding the key-value payloads
//! the device answers with.
//!
//! The protocol is synchronous: send one command, receive one response.

use vstd::prelude::*;
use vstd::string::*;
use vstd::utf8::*;

use crate::error::{is_protocol_error, AttentioError};
use crate::text::{dec_spec, dec_string, hex_fixed_spec, hex_fixed_string};

use super::packet::{ap_error_name, ap_error_name_spec, ApResponse, CMD_ERROR, CMD_OK};

verus! {

/// Events emitted by the AP client monitor tap.
#[derive(Debug, Clone)]
pub enum MonitorEvent {
    /// A command was sent from host to device.
    Outgoing { cmd: u8, payload: Vec<u8> },
    /// A response/event was received from device.
    Incoming(ApResponse),
}

/// Parsed device status from GET_STATUS response.
#[derive(Debug, Clone, Copy, PartialEq, Eq)]
pub struct DeviceStatus {
    pub system_state: u8,
    pub current_r: u8,
    pub current_g: u8,
    pub current_b: u8,
    pub brightness: u8,
    pub control_mode: u8,
    pub active_controller: u8,
    pub standalone_mode: u8,
    pub effects_submode: u8,
    pub standalone_color_index: u8,
    pub standalone_brightness_raw: u8,
    pub anim_type: u8,
    pub session_id: u16,
}

// ── Names of status bytes ────────────────────────────────────────────────────

pub open spec fn control_mode_name_spec(mode: u8) -> Seq<char> {
    if mode == 0 {
        "STANDALONE"@
    } else if mode == 1 {
        "REMOTE"@
    } else {
        "UNKNOWN"@
    }
}

/// Human-readable name for control mode byte.
pub fn control_mode_name(mode: u8) -> (r: &'static str)
    ensures
        r@ == control_mode_name_spec(mode),
{
    match mode {
        0 => "STANDALONE",
        1 => "REMOTE",
        _ => "UNKNOWN",
    }
}

pub open spec fn interface_name_spec(id: u8) -> Seq<char> {
    if id == 0 {
        "NONE"@
    } else if id == 1 {
        "STANDALONE"@
    } else if id == 2 {
        "USB"@
    } else if id == 3 {
        "BLE"@
    } else if id == 4 {
        "WiFi"@
    } else {
        "UNKNOWN"@
    }
}

/// Human-readable name for interface ID byte.
pub fn interface_name(id: u8) -> (r: &'static str)
    ensures
        r@ == interface_name_spec(id),
{
    match id {
        0 => "NONE",
        1 => "STANDALONE",
        2 => "USB",
        3 => "BLE",
        4 => "WiFi",
        _ => "UNKNOWN",
    }
}

pub open spec fn system_state_name_spec(state: u8) -> Seq<char> {
    if state == 0 {
        "BOOT"@
    } else if state == 1 {
        "POWERUP"@
    } else if state == 2 {
        "ACTIVE"@
    } else if state == 3 {
        "POWERDOWN"@
    } else if state == 4 {
        "OFF"@
    } else {
        "UNKNOWN"@
    }
}

/// Human-readable name for system state byte.
pub fn system_state_name(state: u8) -> (r: &'static str)
    ensures
        r@ == system_state_name_spec(state),
{
    match state {
        0 => "BOOT",
        1 => "POWERUP",
        2 => "ACTIVE",
        3 => "POWERDOWN",
        4 => "OFF",
        _ => "UNKNOWN",
    }
}

pub open spec fn standalone_mode_name_spec(mode: u8) -> Seq<char> {
    if mode == 0 {
        "Solid Color"@
    } else if mode == 1 {
        "Brightness"@
    } else if mode == 2 {
        "Blinking"@
    } else if mode == 3 {
        "Pulsation"@
    } else if mode == 4 {
        "Effects"@
    } else if mode == 5 {
        "Traffic Light"@
    } else if mode == 6 {
        "Night Light"@
    } else {
        "UNKNOWN"@
    }
}

/// Human-readable name for standalone mode byte.
pub fn standalone_mode_name(mode: u8) -> (r: &'static str)
    ensures
        r@ == standalone_mode_name_spec(mode),
{
    match mode {
        0 => "Solid Color",
        1 => "Brightness",
        2 => "Blinking",
        3 => "Pulsation",
        4 => "Effects",
        5 => "Traffic Light",
        6 => "Night Light",
        _ => "UNKNOWN",
    }
}

pub open spec fn effects_submode_name_spec(submode: u8) -> Seq<char> {
    if submode == 0 {
        "Rainbow"@
    } else if submode == 1 {
        "Color Cycle"@
    } else if submode == 2 {
        "Breathing"@
    } else if submode == 3 {
        "Candle"@
    } else if submode == 4 {
        "Fire"@
    } else if submode == 5 {
        "Lava Lamp"@
    } else if submode == 6 {
        "Day/Night"@
    } else if submode == 7 {
        "Ocean"@
    } else if submode == 8 {
        "Northern Lights"@
    } else if submode == 9 {
        "Thunder Storm"@
    } else if submode == 10 {
        "Police"@
    } else if submode == 11 {
        "Health Pulse"@
    } else if submode == 12 {
        "Memory"@
    } else {
        "UNKNOWN"@
    }
}

/// Human-readable name for effects sub-mode byte.
pub fn effects_submode_name(submode: u8) -> (r: &'static str)
    ensures
        r@ == effects_submode_name_spec(submode),
{
    match submode {
        0 => "Rainbow",
        1 => "Color Cycle",
        2 => "Breathing",
        3 => "Candle",
        4 => "Fire",
        5 => "Lava Lamp",
        6 => "Day/Night",
        7 => "Ocean",
        8 => "Northern Lights",
        9 => "Thunder Storm",
        10 => "Police",
        11 => "Health Pulse",
        12 => "Memory",
        _ => "UNKNOWN",
    }
}

// ── Responses ────────────────────────────────────────────────────────────────

/// The message of a response that is neither OK nor a well-formed error.
pub open spec fn response_error_message(cmd: u8, payload: Seq<u8>) -> Seq<char> {
    if cmd == CMD_ERROR {
        let code: u8 = if payload.len() > 0 {
            payload[0]
        } else {
            0xFF
        };
        "device returned error 0x"@ + hex_fixed_spec(code as nat, 2) + ": "@ + ap_error_name_spec(
            code,
        )
    } else {
        "unexpected response command: 0x"@ + hex_fixed_spec(cmd as nat, 2)
    }
}

/// The payload of an OK response; a protocol error for an ERROR response
/// (naming its error code, 0xFF when it has none) or for any other command.
pub fn response_payload(resp: ApResponse) -> (r: Result<Vec<u8>, AttentioError>)
    ensures
        resp.cmd == CMD_OK ==> (r matches Ok(p) && p@ == resp.payload@),
        resp.cmd != CMD_OK ==> (r matches Err(e) && is_protocol_error(
            e,
            response_error_message(resp.cmd, resp.payload@),
        )),
{
    if resp.is_ok() {
        Ok(resp.payload)
    } else if resp.is_error() {
        let code = match resp.error_code() {
            Some(c) => c,
            None => 0xFF,
        };
        let mut m = "device returned error 0x".to_owned();
        m.append(hex_fixed_string(code as u64, 2).as_str());
        m.append(": ");
        m.append(ap_error_name(code));
        Err(AttentioError::Protocol { message: m })
    } else {
        let mut m = "unexpected response command: 0x".to_owned();
        m.append(hex_fixed_string(resp.cmd as u64, 2).as_str());
        Err(AttentioError::Protocol { message: m })
    }
}

/// The byte at `k`, or 0 past the end.
pub open spec fn byte_or_zero(p: Seq<u8>, k: int) -> u8 {
    if 0 <= k < p.len() {
        p[k]
    } else {
        0
    }
}

/// The status a GET_STATUS payload of at least 8 bytes describes; the bytes
/// after the legacy 8 default to 0 when absent.
pub open spec fn status_spec(p: Seq<u8>) -> DeviceStatus {
    DeviceStatus {
        system_state: p[0],
        current_r: p[1],
        current_g: p[2],
        current_b: p[3],
        brightness: p[4],
        control_mode: p[5],
        active_controller: p[6],
        standalone_mode: p[7],
        effects_submode: byte_or_zero(p, 8),
        standalone_color_index: byte_or_zero(p, 9),
        standalone_brightness_raw: byte_or_zero(p, 10),
        anim_type: byte_or_zero(p, 11),
        session_id: (byte_or_zero(p, 12) * 256 + byte_or_zero(p, 13)) as u16,
    }
}

fn byte_at(p: &[u8], k: usize) -> (b: u8)
    ensures
        b == byte_or_zero(p@, k as int),
{
    if k < p.len() {
        p[k]
    } else {
        0
    }
}

/// Decodes a GET_STATUS payload (8 bytes from legacy firmware, 12 or more
/// from v2 firmware).
pub fn decode_status(payload: &[u8]) -> (r: Result<DeviceStatus, AttentioError>)
    ensures
        payload@.len() >= 8 ==> r == Ok::<DeviceStatus, AttentioError>(status_spec(payload@)),
        payload@.len() < 8 ==> (r matches Err(e) && is_protocol_error(
            e,
            "GET_STATUS response too short: "@ + dec_spec(payload@.len()) + " bytes (expected >= 8)"@,
        )),
{
    if payload.len() < 8 {
        let mut m = "GET_STATUS response too short: ".to_owned();
        m.append(dec_string(payload.len() as u64).as_str());
        m.append(" bytes (expected >= 8)");
        return Err(AttentioError::Protocol { message: m });
    }
    let hi = byte_at(payload, 12) as u16;
    let lo = byte_at(payload, 13) as u16;
    let session_id = hi * 256 + lo;
    Ok(
        DeviceStatus {
            system_state: payload[0],
            current_r: payload[1],
            current_g: payload[2],
            current_b: payload[3],
            brightness: payload[4],
            control_mode: payload[5],
            active_controller: payload[6],
            standalone_mode: payload[7],
            effects_submode: byte_at(payload, 8),
            standalone_color_index: byte_at(payload, 9),
            standalone_brightness_raw: byte_at(payload, 10),
            anim_type: byte_at(payload, 11),
            session_id,
        },
    )
}

/// The session ID of a CLAIM response: its first two bytes, big-endian, or 0
/// when the payload is shorter.
pub fn decode_session_id(payload: &[u8]) -> (id: u16)
    ensures
        payload@.len() >= 2 ==> id == payload@[0] * 256 + payload@[1],
        payload@.len() < 2 ==> id == 0,
{
    if payload.len() >= 2 {
        payload[0] as u16 * 256 + payload[1] as u16
    } else {
        0
    }
}

/// The level of a LOG_GET_LEVEL response: its first byte.
pub fn decode_log_level(payload: &[u8]) -> (r: Result<u8, AttentioError>)
    ensures
        payload@.len() > 0 ==> r == Ok::<u8, AttentioError>(payload@[0]),
        payload@.len() == 0 ==> (r matches Err(e) && is_protocol_error(
            e,
            "LOG_GET_LEVEL response has no payload"@,
        )),
{
    if payload.len() == 0 {
        return Err(AttentioError::Protocol { message: "LOG_GET_LEVEL response has no payload".to_owned() });
    }
    Ok(payload[0])
}

/// Whether GET_METADATA paging is done: the entries collected reach the
/// total the device announced.
pub fn metadata_complete(collected: usize, total: u8) -> (r: bool)
    ensures
        r == (collected >= total),
{
    collected >= total as usize
}

// ── Requests ─────────────────────────────────────────────────────────────────

/// A length byte followed by the bytes of `s` (the length is taken modulo 256).
pub open spec fn length_prefixed(s: Seq<u8>) -> Seq<u8> {
    seq![(s.len() % 256) as u8] + s
}

fn push_length_prefixed(req: &mut Vec<u8>, s: &str)
    ensures
        final(req)@ == old(req)@ + length_prefixed(s.spec_bytes()),
{
    let b = s.as_bytes();
    let n: usize = b.len() % 256;
    req.push(n as u8);
    let ghost start = req@;
    let mut i: usize = 0;
    while i < b.len()
        invariant
            b@ == s.spec_bytes(),
            i <= b@.len(),
            req@ == start + b@.take(i as int),
        decreases b@.len() - i,
    {
        req.push(b[i]);
        i = i + 1;
        proof {
            assert(b@.take(i as int) =~= b@.take(i - 1).push(b@[i - 1]));
        }
    }
    proof {
        assert(b@.take(b@.len() as int) =~= b@);
        assert(start + b@ =~= old(req)@ + length_prefixed(s.spec_bytes()));
    }
}

/// The request payload naming one key: `[key_len:1][key]`.
pub fn key_request(key: &str) -> (req: Vec<u8>)
    ensures
        req@ == length_prefixed(key.spec_bytes()),
{
    let mut req = Vec::new();
    push_length_prefixed(&mut req, key);
    proof {
        assert(Seq::<u8>::empty() + length_prefixed(key.spec_bytes()) =~= length_prefixed(
            key.spec_bytes(),
        ));
    }
    req
}

/// The request payload of SETTINGS_SET: `[key_len:1][key][val_len:1][val]`.
pub fn key_value_request(key: &str, value: &str) -> (req: Vec<u8>)
    ensures
        req@ == length_prefixed(key.spec_bytes()) + length_prefixed(value.spec_bytes()),
{
    let mut req = Vec::new();
    push_length_prefixed(&mut req, key);
    push_length_prefixed(&mut req, value);
    proof {
        assert(Seq::<u8>::empty() + length_prefixed(key.spec_bytes()) + length_prefixed(
            value.spec_bytes(),
        ) =~= length_prefixed(key.spec_bytes()) + length_prefixed(value.spec_bytes()));
    }
    req
}

/// The payload of SET_HSV: `[H low][H high][S][V]`.
pub fn hsv_payload(h: u16, s: u8, v: u8) -> (p: Vec<u8>)
    ensures
        p@ == seq![(h % 256) as u8, (h / 256) as u8, s, v],
{
    let lo = (h % 256) as u8;
    let hi = (h / 256) as u8;
    let p = vec![lo, hi, s, v];
    proof {
        assert(p@ =~= seq![(h % 256) as u8, (h / 256) as u8, s, v]);
    }
    p
}

// ── Key-value payloads ───────────────────────────────────────────────────────

/// The text the bytes encode in UTF-8, if they are valid UTF-8.
pub open spec fn utf8_text(b: Seq<u8>) -> Option<Seq<char>> {
    if valid_utf8(b) {
        Some(decode_utf8(b))
    } else {
        None
    }
}

/// Builds a string from bytes when they are valid UTF-8.
///
/// Trusted: calls `String::from_utf8`; the contract here (not proved) is
/// that it succeeds exactly on valid UTF-8 and then holds the characters
/// the bytes decode to.
#[verifier::external_body]
fn string_from_utf8(bytes: Vec<u8>) -> (r: Option<String>)
    ensures
        r is Some <==> valid_utf8(bytes@),
        r matches Some(s) ==> s@ == decode_utf8(bytes@),
{
    String::from_utf8(bytes).ok()
}

fn copy_range(data: &[u8], lo: usize, hi: usize) -> (v: Vec<u8>)
    requires
        lo <= hi <= data@.len(),
    ensures
        v@ == data@.subrange(lo as int, hi as int),
{
    let mut v = Vec::new();
    let mut i = lo;
    while i < hi
        invariant
            lo <= i <= hi,
            hi <= data@.len(),
            v@ == data@.subrange(lo as int, i as int),
        decreases hi - i,
    {
        v.push(data[i]);
        i = i + 1;
        proof {
            assert(v@ =~= data@.subrange(lo as int, i as int));
        }
    }
    v
}

/// One `[key_len][key][val_len][val]` pair read at `pos`: the key, the value
/// and the position after it, or the reason it cannot be read.
pub open spec fn kv_pair_spec(data: Seq<u8>, pos: int) -> Result<
    (Seq<char>, Seq<char>, int),
    Seq<char>,
> {
    if pos >= data.len() {
        Err("unexpected end of data (no key_len)"@)
    } else {
        let key_len = data[pos] as int;
        let key_start = pos + 1;
        let key_end = key_start + key_len;
        if key_end > data.len() {
            Err(
                "key_len="@ + dec_spec(key_len as nat) + " exceeds remaining data ("@ + dec_spec(
                    (data.len() - key_start) as nat,
                ) + " bytes)"@,
            )
        } else if utf8_text(data.subrange(key_start, key_end)) is None {
            Err("key is not valid UTF-8"@)
        } else if key_end >= data.len() {
            Err("unexpected end of data (no val_len)"@)
        } else {
            let val_len = data[key_end] as int;
            let val_start = key_end + 1;
            let val_end = val_start + val_len;
            if val_end > data.len() {
                Err(
                    "val_len="@ + dec_spec(val_len as nat) + " exceeds remaining data ("@
                        + dec_spec((data.len() - val_start) as nat) + " bytes)"@,
                )
            } else if utf8_text(data.subrange(val_start, val_end)) is None {
                Err("value is not valid UTF-8"@)
            } else {
                Ok(
                    (
                        decode_utf8(data.subrange(key_start, key_end)),
                        decode_utf8(data.subrange(val_start, val_end)),
                        val_end,
                    ),
                )
            }
        }
    }
}

/// The view of a key-value result.
pub open spec fn kv_pair_view(r: Result<(String, String, usize), String>) -> Result<
    (Seq<char>, Seq<char>, int),
    Seq<char>,
> {
    match r {
        Ok((k, v, p)) => Ok((k@, v@, p as int)),
        Err(m) => Err(m@),
    }
}

fn length_error(what: &str, len: usize, remaining: usize) -> (m: String)
    ensures
        m@ == what@ + dec_spec(len as nat) + " exceeds remaining data ("@ + dec_spec(
            remaining as nat,
        ) + " bytes)"@,
{
    let mut m = what.to_owned();
    m.append(dec_string(len as u64).as_str());
    m.append(" exceeds remaining data (");
    m.append(dec_string(remaining as u64).as_str());
    m.append(" bytes)");
    m
}

/// Parses one `[key_len][key][val_len][val]` pair starting at `pos`.
///
/// Returns `(key, value, new_pos)` on success, or an error message.
pub fn parse_kv_pair(data: &[u8], pos: usize) -> (r: Result<(String, String, usize), String>)
    ensures
        kv_pair_view(r) == kv_pair_spec(data@, pos as int),
{
    if pos >= data.len() {
        return Err("unexpected end of data (no key_len)".to_owned());
    }
    let key_len = data[pos] as usize;
    let key_start = pos + 1;
    if key_len > data.len() - key_start {
        return Err(length_error("key_len=", key_len, data.len() - key_start));
    }
    let key_end = key_start + key_len;
    let key = match string_from_utf8(copy_range(data, key_start, key_end)) {
        Some(k) => k,
        None => {
            return Err("key is not valid UTF-8".to_owned());
        },
    };
    if key_end >= data.len() {
        return Err("unexpected end of data (no val_len)".to_owned());
    }
    let val_len = data[key_end] as usize;
    let val_start = key_end + 1;
    if val_len > data.len() - val_start {
        return Err(length_error("val_len=", val_len, data.len() - val_start));
    }
    let val_end = val_start + val_len;
    let value = match string_from_utf8(copy_range(data, val_start, val_end)) {
        Some(v) => v,
        None => {
            return Err("value is not valid UTF-8".to_owned());
        },
    };
    Ok((key, value, val_end))
}

/// The pairs read one after another from `pos`: all `n` of them with the
/// position after the last, or the index of the first that fails and why.
pub open spec fn kv_entries_spec(data: Seq<u8>, pos: int, n: nat) -> Result<
    (Seq<(Seq<char>, Seq<char>)>, int),
    (nat, Seq<char>),
>
    decreases n,
{
    if n == 0 {
        Ok((Seq::empty(), pos))
    } else {
        match kv_pair_spec(data, pos) {
            Err(m) => Err((0, m)),
            Ok((k, v, p)) => match kv_entries_spec(data, p, (n - 1) as nat) {
                Ok((es, q)) => Ok((seq![(k, v)] + es, q)),
                Err((i, m)) => Err((i + 1, m)),
            },
        }
    }
}

/// Entries already read, in front of the outcome of reading the rest.
pub open spec fn after_prefix(
    done: Seq<(Seq<char>, Seq<char>)>,
    rest: Result<(Seq<(Seq<char>, Seq<char>)>, int), (nat, Seq<char>)>,
) -> Result<(Seq<(Seq<char>, Seq<char>)>, int), (nat, Seq<char>)> {
    match rest {
        Ok((es, q)) => Ok((done + es, q)),
        Err((i, m)) => Err((i + done.len(), m)),
    }
}

/// The characters of each key and value.
pub open spec fn pairs_view(v: Seq<(String, String)>) -> Seq<(Seq<char>, Seq<char>)> {
    v.map_values(|p: (String, String)| (p.0@, p.1@))
}

proof fn lemma_entries_step(
    data: Seq<u8>,
    pos: int,
    n: nat,
    done: Seq<(Seq<char>, Seq<char>)>,
    k: Seq<char>,
    v: Seq<char>,
    p: int,
)
    requires
        n > 0,
        kv_pair_spec(data, pos) == Ok::<(Seq<char>, Seq<char>, int), Seq<char>>((k, v, p)),
    ensures
        after_prefix(done, kv_entries_spec(data, pos, n)) == after_prefix(
            done.push((k, v)),
            kv_entries_spec(data, p, (n - 1) as nat),
        ),
{
    match kv_entries_spec(data, p, (n - 1) as nat) {
        Ok((es, q)) => {
            assert(done + (seq![(k, v)] + es) =~= done.push((k, v)) + es);
        },
        Err((i, m)) => {},
    }
}

/// Reads `n` pairs from `pos`, or the index and message of the first failure.
fn read_entries(data: &[u8], pos: usize, n: usize) -> (r: Result<
    Vec<(String, String)>,
    (usize, String),
>)
    ensures
        match (r, kv_entries_spec(data@, pos as int, n as nat)) {
            (Ok(v), Ok((es, _))) => pairs_view(v@) == es,
            (Err((i, m)), Err((j, mm))) => i == j && m@ == mm,
            _ => false,
        },
        r matches Err((i, _)) ==> i < n,
{
    let mut entries: Vec<(String, String)> = Vec::new();
    let mut cur = pos;
    let mut i: usize = 0;
    proof {
        assert(pairs_view(entries@) =~= Seq::<(Seq<char>, Seq<char>)>::empty());
        assert(after_prefix(Seq::empty(), kv_entries_spec(data@, pos as int, n as nat))
            == kv_entries_spec(data@, pos as int, n as nat)) by {
            match kv_entries_spec(data@, pos as int, n as nat) {
                Ok((es, q)) => {
                    assert(Seq::<(Seq<char>, Seq<char>)>::empty() + es =~= es);
                },
                Err(_) => {},
            }
        }
    }
    while i < n
        invariant
            i <= n,
            entries@.len() == i,
            kv_entries_spec(data@, pos as int, n as nat) == after_prefix(
                pairs_view(entries@),
                kv_entries_spec(data@, cur as int, (n - i) as nat),
            ),
        decreases n - i,
    {
        match parse_kv_pair(data, cur) {
            Ok((k, v, p)) => {
                proof {
                    lemma_entries_step(
                        data@,
                        cur as int,
                        (n - i) as nat,
                        pairs_view(entries@),
                        k@,
                        v@,
                        p as int,
                    );
                }
                let ghost old_entries = entries@;
                entries.push((k, v));
                proof {
                    assert(pairs_view(entries@) =~= pairs_view(old_entries).push((k@, v@)));
                }
                cur = p;
            },
            Err(m) => {
                return Err((i, m));
            },
        }
        i = i + 1;
    }
    proof {
        assert(kv_entries_spec(data@, cur as int, 0) == Ok::<
            (Seq<(Seq<char>, Seq<char>)>, int),
            (nat, Seq<char>),
        >((Seq::empty(), cur as int)));
        assert(pairs_view(entries@) + Seq::<(Seq<char>, Seq<char>)>::empty() =~= pairs_view(
            entries@,
        ));
    }
    Ok(entries)
}

/// `"{i}/{n}"` followed by `rest`.
pub open spec fn entry_label(i: nat, n: nat) -> Seq<char> {
    dec_spec(i) + "/"@ + dec_spec(n)
}

fn entry_label_string(i: usize, n: usize) -> (s: String)
    ensures
        s@ == entry_label(i as nat, n as nat),
{
    let mut s = dec_string(i as u64);
    s.append("/");
    s.append(dec_string(n as u64).as_str());
    s
}

/// The outcome of reading a count-prefixed key-value list.
pub open spec fn kv_list_spec(data: Seq<u8>) -> Result<Seq<(Seq<char>, Seq<char>)>, Seq<char>> {
    if data.len() == 0 {
        Err("empty key-value list payload"@)
    } else {
        let count = data[0] as nat;
        match kv_entries_spec(data, 1, count) {
            Ok((es, _)) => Ok(es),
            Err((i, m)) => Err("key-value list entry "@ + entry_label(i + 1, count) + ": "@ + m),
        }
    }
}

/// The view of a parsed list: the pairs' characters, or the protocol error's message.
pub open spec fn kv_list_view(r: Result<Vec<(String, String)>, AttentioError>) -> Option<
    Result<Seq<(Seq<char>, Seq<char>)>, Seq<char>>,
> {
    match r {
        Ok(v) => Some(Ok(pairs_view(v@))),
        Err(AttentioError::Protocol { message }) => Some(Err(message@)),
        Err(_) => None,
    }
}

/// Parses a count-prefixed key-value list from an AP response payload.
///
/// Format: `[count:1] { [key_len:1][key:key_len][val_len:1][val:val_len] } * count`
pub fn parse_kv_list(data: &[u8]) -> (r: Result<Vec<(String, String)>, AttentioError>)
    ensures
        kv_list_view(r) == Some(kv_list_spec(data@)),
{
    if data.len() == 0 {
        return Err(AttentioError::Protocol { message: "empty key-value list payload".to_owned() });
    }
    let count = data[0] as usize;
    match read_entries(data, 1, count) {
        Ok(v) => Ok(v),
        Err((i, msg)) => {
            let mut m = "key-value list entry ".to_owned();
            m.append(entry_label_string(i + 1, count).as_str());
            m.append(": ");
            m.append(msg.as_str());
            Err(AttentioError::Protocol { message: m })
        },
    }
}

/// The outcome of reading a page of GET_METADATA entries:
/// `(total_count, page, entries)` or an error message.
pub open spec fn kv_paginated_spec(data: Seq<u8>) -> Result<
    (u8, u8, Seq<(Seq<char>, Seq<char>)>),
    Seq<char>,
> {
    if data.len() < 3 {
        Err(
            "paginated key-value payload too short: "@ + dec_spec(data.len())
                + " bytes (need at least 3)"@,
        )
    } else {
        let page_count = data[2] as nat;
        match kv_entries_spec(data, 3, page_count) {
            Ok((es, _)) => Ok((data[0], data[1], es)),
            Err((i, m)) => Err(
                "paginated key-value entry "@ + entry_label(i + 1, page_count) + " (page "@
                    + dec_spec(data[1] as nat) + "): "@ + m,
            ),
        }
    }
}

/// The view of a parsed page.
pub open spec fn kv_paginated_view(r: Result<(u8, u8, Vec<(String, String)>), AttentioError>) -> Option<
    Result<(u8, u8, Seq<(Seq<char>, Seq<char>)>), Seq<char>>,
> {
    match r {
        Ok((t, p, v)) => Some(Ok((t, p, pairs_view(v@)))),
        Err(AttentioError::Protocol { message }) => Some(Err(message@)),
        Err(_) => None,
    }
}

/// Parses a paginated key-value list from an AP GET_METADATA response payload.
///
/// Format: `[total_count:1][page:1][page_count:1] { [key_len:1][key][val_len:1][val] } * page_count`
///
/// Returns `(total_count, page, entries)`.
pub fn parse_kv_paginated(data: &[u8]) -> (r: Result<(u8, u8, Vec<(String, String)>), AttentioError>)
    ensures
        kv_paginated_view(r) == Some(kv_paginated_spec(data@)),
{
    if data.len() < 3 {
        let mut m = "paginated key-value payload too short: ".to_owned();
        m.append(dec_string(data.len() as u64).as_str());
        m.append(" bytes (need at least 3)");
        return Err(AttentioError::Protocol { message: m });
    }
    let total_count = data[0];
    let page = data[1];
    let page_count = data[2] as usize;
    match read_entries(data, 3, page_count) {
        Ok(v) => Ok((total_count, page, v)),
        Err((i, msg)) => {
            let mut m = "paginated key-value entry ".to_owned();
            m.append(entry_label_string(i + 1, page_count).as_str());
            m.append(" (page ");
            m.append(dec_string(page as u64).as_str());
            m.append("): ");
            m.append(msg.as_str());
            Err(AttentioError::Protocol { message: m })
        },
    }
}

/// The outcome of reading a single pair with no count prefix.
pub open spec fn kv_single_spec(data: Seq<u8>) -> Result<(Seq<char>, Seq<char>), Seq<char>> {
    if data.len() == 0 {
        Err("empty key-value payload"@)
    } else {
        match kv_pair_spec(data, 0) {
            Ok((k, v, _)) => Ok((k, v)),
            Err(m) => Err(m),
        }
    }
}

/// The view of a parsed single pair.
pub open spec fn kv_single_view(r: Result<(String, String), AttentioError>) -> Option<
    Result<(Seq<char>, Seq<char>), Seq<char>>,
> {
    match r {
        Ok((k, v)) => Some(Ok((k@, v@))),
        Err(AttentioError::Protocol { message }) => Some(Err(message@)),
        Err(_) => None,
    }
}

/// Parses a single key-value pair (no count prefix) from an AP response payload.
///
/// Format: `[key_len:1][key:key_len][val_len:1][val:val_len]`
pub fn parse_kv_single(data: &[u8]) -> (r: Result<(String, String), AttentioError>)
    ensures
        kv_single_view(r) == Some(kv_single_spec(data@)),
{
    if data.len() == 0 {
        return Err(AttentioError::Protocol { message: "empty key-value payload".to_owned() });
    }
    match parse_kv_pair(data, 0) {
        Ok((k, v, _)) => Ok((k, v)),
        Err(m) => Err(AttentioError::Protocol { message: m }),
    }
}

// ── Laws of the key-value format ─────────────────────────────────────────────

/// Round trip: a key and a value encoded the way SETTINGS_SET sends them
/// (each at most 255 bytes) are read back unchanged by the pair parser,
/// which ends right after the value.
pub proof fn lemma_kv_pair_roundtrip(key: Seq<char>, value: Seq<char>)
    requires
        encode_utf8(key).len() <= 255,
        encode_utf8(value).len() <= 255,
    ensures
        kv_pair_spec(length_prefixed(encode_utf8(key)) + length_prefixed(encode_utf8(value)), 0)
            == Ok::<(Seq<char>, Seq<char>, int), Seq<char>>(
            (key, value, 2 + encode_utf8(key).len() as int + encode_utf8(value).len() as int),
        ),
{
    let kb = encode_utf8(key);
    let vb = encode_utf8(value);
    let data = length_prefixed(kb) + length_prefixed(vb);
    let kl = kb.len() as int;
    let vl = vb.len() as int;
    assert(data[0] == kl as u8);
    assert(data.subrange(1, 1 + kl) =~= kb);
    assert(data[1 + kl] == vl as u8);
    assert(data.subrange(2 + kl, 2 + kl + vl) =~= vb);
    vstd::utf8::encode_utf8_valid_utf8(key);
    vstd::utf8::encode_utf8_valid_utf8(value);
    vstd::utf8::encode_utf8_decode_utf8(key);
    vstd::utf8::encode_utf8_decode_utf8(value);
}

// ── Claiming the device ──────────────────────────────────────────────────────

/// Whether a command changes device state and therefore needs the host to
/// hold the claim: LED control, power, and SETTINGS_SET.
pub fn command_requires_claim(cmd: u8) -> (r: bool)
    ensures
        r == (cmd == super::packet::CMD_LED_OFF || cmd == super::packet::CMD_SET_RGB || cmd
            == super::packet::CMD_SET_HSV || cmd == super::packet::CMD_SET_BRIGHTNESS || cmd
            == super::packet::CMD_POWER_ON || cmd == super::packet::CMD_POWER_OFF || cmd
            == super::packet::CMD_SETTINGS_SET),
{
    cmd == super::packet::CMD_LED_OFF || cmd == super::packet::CMD_SET_RGB || cmd
        == super::packet::CMD_SET_HSV || cmd == super::packet::CMD_SET_BRIGHTNESS || cmd
        == super::packet::CMD_POWER_ON || cmd == super::packet::CMD_POWER_OFF || cmd
        == super::packet::CMD_SETTINGS_SET
}

/// Whether this client session holds the device's claim.
#[derive(Debug, Clone, Copy, PartialEq, Eq)]
pub struct ClaimState {
    pub claimed: bool,
}

impl ClaimState {
    /// A session that has not claimed the device.
    pub fn new() -> (c: Self)
        ensures
            !c.claimed,
    {
        ClaimState { claimed: false }
    }

    /// Whether CLAIM must be sent before a state-changing command: only when
    /// the session does not hold the claim yet.
    pub fn needs_claim(&self) -> (r: bool)
        ensures
            r == !self.claimed,
    {
        !self.claimed
    }

    /// Records a successful CLAIM.
    pub fn on_claimed(&mut self)
        ensures
            final(self).claimed,
    {
        self.claimed = true;
    }

    /// Records a successful RELEASE.
    pub fn on_released(&mut self)
        ensures
            !final(self).claimed,
    {
        self.claimed = false;
    }
}

/// Each field of a decoded status is the byte at its place in the
/// GET_STATUS payload: bytes 0-7 always, bytes 8-11 and the big-endian
/// session ID in bytes 12-13 when present (else 0), whatever the length.
pub proof fn lemma_status_fields(p: Seq<u8>)
    requires
        p.len() >= 8,
    ensures
        status_spec(p).system_state == p[0],
        status_spec(p).current_r == p[1],
        status_spec(p).current_g == p[2],
        status_spec(p).current_b == p[3],
        status_spec(p).brightness == p[4],
        status_spec(p).control_mode == p[5],
        status_spec(p).active_controller == p[6],
        status_spec(p).standalone_mode == p[7],
        status_spec(p).effects_submode == (if p.len() > 8 { p[8] } else { 0 }),
        status_spec(p).standalone_color_index == (if p.len() > 9 { p[9] } else { 0 }),
        status_spec(p).standalone_brightness_raw == (if p.len() > 10 { p[10] } else { 0 }),
        status_spec(p).anim_type == (if p.len() > 11 { p[11] } else { 0 }),
        p.len() >= 14 ==> status_spec(p).session_id == p[12] * 256 + p[13],
        p.len() <= 12 ==> status_spec(p).session_id == 0,
{
}

} // verus!
