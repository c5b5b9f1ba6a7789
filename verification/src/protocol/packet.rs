//! AP packet building, parsing, and protocol constants.
//!
//! Packet format: `[SYNC 0xA5][LEN][CMD][PAYLOAD 0..252][CRC8]`
//!
//! - **LEN** = length of CMD + PAYLOAD (1..253). Excludes SYNC, LEN, and CRC.
//! - **CRC** = CRC-8/CCITT over LEN + CMD + PAYLOAD bytes.
//! - Protocol is synchronous: one command, one response.

use vstd::prelude::*;

use super::crc::{crc8, crc8_spec};

verus! {

// ── Framing ──────────────────────────────────────────────────────────────────

/// Sync byte that starts every AP packet.
pub const SYNC_BYTE: u8 = 0xA5;

/// Maximum payload length (252 bytes; LEN max = 253 = 1 cmd + 252 payload).
pub const MAX_PAYLOAD_LEN: usize = 252;

// ── Command IDs ──────────────────────────────────────────────────────────────

// Session control (0x00-0x0F)
pub const CMD_CLAIM: u8 = 0x01;
pub const CMD_RELEASE: u8 = 0x02;
pub const CMD_PING: u8 = 0x03;

// Power control (0x10-0x1F)
pub const CMD_POWER_ON: u8 = 0x10;
pub const CMD_POWER_OFF: u8 = 0x11;

// Direct LED control (0x20-0x2F)
pub const CMD_LED_OFF: u8 = 0x20;
pub const CMD_SET_RGB: u8 = 0x21;
pub const CMD_SET_HSV: u8 = 0x22;
pub const CMD_SET_BRIGHTNESS: u8 = 0x23;

// Query (0x40-0x4F)
pub const CMD_GET_STATUS: u8 = 0x40;
pub const CMD_GET_METADATA: u8 = 0x43;
pub const CMD_METADATA_GET: u8 = 0x44;

// Settings (0x50-0x5F)
pub const CMD_SETTINGS_LIST: u8 = 0x50;
pub const CMD_SETTINGS_GET: u8 = 0x51;
pub const CMD_SETTINGS_SET: u8 = 0x52;

// Runtime log level (0x60-0x6F)
pub const CMD_LOG_GET_LEVEL: u8 = 0x60;
pub const CMD_LOG_SET_LEVEL: u8 = 0x61;

// DFU (0x70-0x7F)
pub const CMD_DFU_ENTER: u8 = 0x70;

// Events (0x80-0x8F) — Device -> Host
pub const CMD_EVT_BUTTON: u8 = 0x80;
pub const CMD_EVT_STATE_CHANGE: u8 = 0x81;
pub const CMD_EVT_SESSION_END: u8 = 0x82;

/// Response OK — returned by the device on success.
pub const CMD_OK: u8 = 0xF0;
/// Response ERROR — returned by the device on failure.
pub const CMD_ERROR: u8 = 0xF1;

// ── AP error codes ───────────────────────────────────────────────────────────

pub const AP_ERR_NONE: u8 = 0x00;
pub const AP_ERR_NOT_CONTROLLER: u8 = 0x01;
pub const AP_ERR_INVALID_CMD: u8 = 0x02;
pub const AP_ERR_INVALID_PARAM: u8 = 0x03;
pub const AP_ERR_INVALID_STATE: u8 = 0x04;
pub const AP_ERR_CRC_FAIL: u8 = 0x05;

/// Human-readable description of an AP error code.
pub open spec fn ap_error_name_spec(code: u8) -> Seq<char> {
    if code == AP_ERR_NONE {
        "none"@
    } else if code == AP_ERR_NOT_CONTROLLER {
        "not active controller"@
    } else if code == AP_ERR_INVALID_CMD {
        "invalid/unknown command"@
    } else if code == AP_ERR_INVALID_PARAM {
        "invalid parameter"@
    } else if code == AP_ERR_INVALID_STATE {
        "invalid state"@
    } else if code == AP_ERR_CRC_FAIL {
        "CRC check failed"@
    } else {
        "unknown error"@
    }
}

/// Human-readable description for an AP error code.
pub fn ap_error_name(code: u8) -> (r: &'static str)
    ensures
        r@ == ap_error_name_spec(code),
{
    match code {
        AP_ERR_NONE => "none",
        AP_ERR_NOT_CONTROLLER => "not active controller",
        AP_ERR_INVALID_CMD => "invalid/unknown command",
        AP_ERR_INVALID_PARAM => "invalid parameter",
        AP_ERR_INVALID_STATE => "invalid state",
        AP_ERR_CRC_FAIL => "CRC check failed",
        _ => "unknown error",
    }
}

// ── Packet building ──────────────────────────────────────────────────────────

/// The bytes the CRC covers: `[LEN][CMD][PAYLOAD...]`.
pub open spec fn frame_body(cmd: u8, payload: Seq<u8>) -> Seq<u8> {
    seq![(1 + payload.len()) as u8, cmd] + payload
}

/// The complete packet `[SYNC][LEN][CMD][payload...][CRC8]`.
pub open spec fn packet_spec(cmd: u8, payload: Seq<u8>) -> Seq<u8> {
    seq![SYNC_BYTE] + frame_body(cmd, payload) + seq![crc8_spec(frame_body(cmd, payload))]
}

/// Build a complete AP packet: `[SYNC][LEN][CMD][payload...][CRC8]`.
///
/// `payload` may be empty (e.g. GET_METADATA has no payload) and holds at
/// most `MAX_PAYLOAD_LEN` bytes.
pub fn build_packet(cmd: u8, payload: &[u8]) -> (pkt: Vec<u8>)
    requires
        payload@.len() <= MAX_PAYLOAD_LEN,
    ensures
        pkt@ == packet_spec(cmd, payload@),
{
    let len: u8 = (1 + payload.len()) as u8;
    let mut body: Vec<u8> = Vec::with_capacity(2 + payload.len());
    body.push(len);
    body.push(cmd);
    let mut i: usize = 0;
    while i < payload.len()
        invariant
            i <= payload@.len(),
            len == (1 + payload@.len()) as u8,
            body@ == seq![len, cmd] + payload@.take(i as int),
        decreases payload@.len() - i,
    {
        body.push(payload[i]);
        i = i + 1;
        proof {
            assert(payload@.take(i as int) =~= payload@.take(i - 1).push(payload@[i - 1]));
        }
    }
    proof {
        assert(payload@.take(payload@.len() as int) =~= payload@);
        assert(body@ =~= frame_body(cmd, payload@));
    }
    let crc = crc8(body.as_slice());
    let mut pkt: Vec<u8> = Vec::with_capacity(body.len() + 2);
    pkt.push(SYNC_BYTE);
    pkt.append(&mut body);
    pkt.push(crc);
    proof {
        assert(pkt@ =~= packet_spec(cmd, payload@));
    }
    pkt
}

// ── Response parsing ─────────────────────────────────────────────────────────

/// A parsed AP response from the device.
#[derive(Debug, Clone)]
pub struct ApResponse {
    /// Response command byte (CMD_OK or CMD_ERROR).
    pub cmd: u8,
    /// Response payload (may be empty).
    pub payload: Vec<u8>,
}

impl View for ApResponse {
    type V = (u8, Seq<u8>);

    open spec fn view(&self) -> (u8, Seq<u8>) {
        (self.cmd, self.payload@)
    }
}

impl ApResponse {
    /// Returns `true` if this is a success response (CMD_OK).
    pub fn is_ok(&self) -> (r: bool)
        ensures
            r == (self.cmd == CMD_OK),
    {
        self.cmd == CMD_OK
    }

    /// Returns `true` if this is an error response (CMD_ERROR).
    pub fn is_error(&self) -> (r: bool)
        ensures
            r == (self.cmd == CMD_ERROR),
    {
        self.cmd == CMD_ERROR
    }

    /// If this is an error response, return the error code byte.
    pub fn error_code(&self) -> (r: Option<u8>)
        ensures
            r == (if self.cmd == CMD_ERROR && self.payload@.len() > 0 {
                Some(self.payload@[0])
            } else {
                None::<u8>
            }),
    {
        if self.is_error() && self.payload.len() > 0 {
            Some(self.payload[0])
        } else {
            None
        }
    }

    /// Returns `true` if this frame is an asynchronous device event
    /// (command byte 0x80-0x8F) rather than the answer to a command.
    pub fn is_event(&self) -> (r: bool)
        ensures
            r == is_event_cmd(self.cmd),
    {
        0x80 <= self.cmd && self.cmd <= 0x8F
    }
}

/// Where the byte-by-byte parser stands.
#[derive(Debug, Clone, Copy, PartialEq, Eq)]
pub enum ParseState {
    /// Waiting for the sync byte.
    Sync,
    /// Waiting for the LEN byte.
    Len,
    /// Collecting CMD + PAYLOAD bytes.
    Data,
    /// Waiting for the CRC byte.
    Crc,
}

/// The abstract state of an [`ApParser`]: its phase, the announced LEN and
/// the CMD + PAYLOAD bytes collected so far.
pub struct ParserModel {
    pub phase: ParseState,
    pub len: u8,
    pub data: Seq<u8>,
}

/// A frame as delivered by the parser: command byte and payload.
pub type Frame = (u8, Seq<u8>);

/// The model of a parser waiting for a sync byte.
pub open spec fn sync_model() -> ParserModel {
    ParserModel { phase: ParseState::Sync, len: 0, data: Seq::empty() }
}

/// Well-formed parser models.
pub open spec fn model_wf(m: ParserModel) -> bool {
    match m.phase {
        ParseState::Sync => m.len == 0 && m.data.len() == 0,
        ParseState::Len => m.len == 0 && m.data.len() == 0,
        ParseState::Data => 1 <= m.len <= MAX_PAYLOAD_LEN + 1 && m.data.len() < m.len,
        ParseState::Crc => 1 <= m.len <= MAX_PAYLOAD_LEN + 1 && m.data.len() == m.len,
    }
}

/// One byte of the parser's state machine: the next model and the frame it
/// delivers, if any.
pub open spec fn parse_step(m: ParserModel, byte: u8) -> (ParserModel, Option<Frame>) {
    match m.phase {
        ParseState::Sync => {
            if byte == SYNC_BYTE {
                (ParserModel { phase: ParseState::Len, len: m.len, data: m.data }, None)
            } else {
                (m, None)
            }
        },
        ParseState::Len => {
            if byte == 0 || byte > MAX_PAYLOAD_LEN + 1 {
                (sync_model(), None)
            } else {
                (ParserModel { phase: ParseState::Data, len: byte, data: Seq::empty() }, None)
            }
        },
        ParseState::Data => {
            let d = m.data.push(byte);
            if d.len() >= m.len {
                (ParserModel { phase: ParseState::Crc, len: m.len, data: d }, None)
            } else {
                (ParserModel { phase: ParseState::Data, len: m.len, data: d }, None)
            }
        },
        ParseState::Crc => {
            if byte == crc8_spec(seq![m.len] + m.data) {
                (sync_model(), Some((m.data[0], m.data.skip(1))))
            } else {
                (sync_model(), None)
            }
        },
    }
}

/// Feeds a whole byte sequence: the final model and every frame delivered,
/// in order.
pub open spec fn parse_all(m: ParserModel, bytes: Seq<u8>) -> (ParserModel, Seq<Frame>)
    decreases bytes.len(),
{
    if bytes.len() == 0 {
        (m, Seq::empty())
    } else {
        let (m1, out) = parse_step(m, bytes[0]);
        let (m2, rest) = parse_all(m1, bytes.skip(1));
        let first: Seq<Frame> = match out {
            Some(f) => seq![f],
            None => Seq::empty(),
        };
        (m2, first + rest)
    }
}

/// Feeds bytes until the first frame is delivered: the model right after
/// that byte and the frame, or the model after all bytes and `None`.
pub open spec fn parse_until_frame(m: ParserModel, bytes: Seq<u8>) -> (ParserModel, Option<Frame>)
    decreases bytes.len(),
{
    if bytes.len() == 0 {
        (m, None)
    } else {
        let (m1, out) = parse_step(m, bytes[0]);
        match out {
            Some(f) => (m1, Some(f)),
            None => parse_until_frame(m1, bytes.skip(1)),
        }
    }
}

/// Event command bytes (0x80-0x8F): frames the device sends on its own.
pub open spec fn is_event_cmd(cmd: u8) -> bool {
    0x80 <= cmd <= 0x8F
}

/// Feeds bytes until the first frame that is not an event: the model right
/// after that frame's last byte, the event frames met on the way, and the
/// frame; or the model after all bytes, the events, and `None`.
pub open spec fn parse_until_response(m: ParserModel, bytes: Seq<u8>) -> (ParserModel, Seq<Frame>, Option<Frame>)
    decreases bytes.len(),
{
    if bytes.len() == 0 {
        (m, Seq::empty(), None)
    } else {
        let (m1, out) = parse_step(m, bytes[0]);
        match out {
            Some(f) => if is_event_cmd(f.0) {
                let (m2, ev, r) = parse_until_response(m1, bytes.skip(1));
                (m2, seq![f] + ev, r)
            } else {
                (m1, Seq::empty(), Some(f))
            },
            None => parse_until_response(m1, bytes.skip(1)),
        }
    }
}

/// The frames of a list of responses.
pub open spec fn frames_view(s: Seq<ApResponse>) -> Seq<Frame> {
    s.map_values(|x: ApResponse| x@)
}

/// The frame view of an optional response.
pub open spec fn response_view(r: Option<ApResponse>) -> Option<Frame> {
    match r {
        Some(resp) => Some(resp@),
        None => None,
    }
}

/// Parser state machine for receiving AP packets byte-by-byte.
///
/// Mirrors the firmware's `ap_parse_byte()` state machine:
///   SYNC -> LEN -> DATA (CMD + PAYLOAD) -> CRC
///
/// Non-sync bytes received in the SYNC state are silently discarded (resync).
#[derive(Debug)]
pub struct ApParser {
    state: ParseState,
    len: u8,
    data: Vec<u8>,
    data_idx: usize,
}

impl ApParser {
    /// The abstract state of this parser.
    pub closed spec fn model(&self) -> ParserModel {
        ParserModel { phase: self.state, len: self.len, data: self.data@ }
    }

    /// Internal consistency: the model is well formed and the byte counter
    /// matches the collected data.
    pub closed spec fn wf(&self) -> bool {
        &&& model_wf(self.model())
        &&& self.data_idx == self.data@.len()
    }

    /// Create a new parser in the initial SYNC state.
    pub fn new() -> (p: Self)
        ensures
            p.wf(),
            p.model() == sync_model(),
    {
        let p = ApParser { state: ParseState::Sync, len: 0, data: Vec::new(), data_idx: 0 };
        proof {
            assert(p.model().data =~= Seq::<u8>::empty());
        }
        p
    }

    /// Reset the parser to the initial SYNC state.
    pub fn reset(&mut self)
        ensures
            final(self).wf(),
            final(self).model() == sync_model(),
    {
        self.state = ParseState::Sync;
        self.len = 0;
        self.data.clear();
        self.data_idx = 0;
        proof {
            assert(self.model().data =~= Seq::<u8>::empty());
        }
    }

    /// Feed a single byte into the parser.
    ///
    /// Returns `Some(ApResponse)` when a complete, valid packet has been received.
    /// Returns `None` if more bytes are needed or if a CRC error causes a reset.
    pub fn feed(&mut self, byte: u8) -> (r: Option<ApResponse>)
        requires
            old(self).wf(),
        ensures
            final(self).wf(),
            (final(self).model(), response_view(r)) == parse_step(old(self).model(), byte),
    {
        match self.state {
            ParseState::Sync => {
                if byte == SYNC_BYTE {
                    self.state = ParseState::Len;
                }
                None
            },
            ParseState::Len => {
                if byte == 0 || byte as usize > MAX_PAYLOAD_LEN + 1 {
                    self.reset();
                    None
                } else {
                    self.len = byte;
                    self.data.clear();
                    self.data_idx = 0;
                    self.state = ParseState::Data;
                    proof {
                        assert(self.data@ =~= Seq::<u8>::empty());
                    }
                    None
                }
            },
            ParseState::Data => {
                self.data.push(byte);
                self.data_idx = self.data_idx + 1;
                if self.data_idx >= self.len as usize {
                    self.state = ParseState::Crc;
                }
                None
            },
            ParseState::Crc => {
                let mut crc_data: Vec<u8> = Vec::with_capacity(1 + self.data.len());
                crc_data.push(self.len);
                let mut i: usize = 0;
                while i < self.data.len()
                    invariant
                        i <= self.data@.len(),
                        crc_data@ == seq![self.len] + self.data@.take(i as int),
                    decreases self.data@.len() - i,
                {
                    crc_data.push(self.data[i]);
                    i = i + 1;
                    proof {
                        assert(self.data@.take(i as int) =~= self.data@.take(i - 1).push(
                            self.data@[i - 1],
                        ));
                    }
                }
                proof {
                    assert(self.data@.take(self.data@.len() as int) =~= self.data@);
                }
                let expected_crc = crc8(crc_data.as_slice());
                let result = if byte == expected_crc {
                    let cmd = self.data[0];
                    let mut payload: Vec<u8> = Vec::new();
                    let mut j: usize = 1;
                    while j < self.data.len()
                        invariant
                            1 <= j <= self.data@.len(),
                            payload@ == self.data@.subrange(1, j as int),
                        decreases self.data@.len() - j,
                    {
                        payload.push(self.data[j]);
                        j = j + 1;
                        proof {
                            assert(self.data@.subrange(1, j as int) =~= self.data@.subrange(
                                1,
                                j - 1,
                            ).push(self.data@[j - 1]));
                        }
                    }
                    proof {
                        assert(payload@ =~= self.data@.skip(1));
                    }
                    Some(ApResponse { cmd, payload })
                } else {
                    None
                };
                self.reset();
                result
            },
        }
    }

    /// Feed bytes until a complete, valid packet has been received.
    ///
    /// Returns the first response the bytes complete; the bytes after it are
    /// not consumed. Returns `None` when all bytes were consumed without
    /// completing a packet.
    pub fn feed_until_response(&mut self, bytes: &[u8]) -> (r: Option<ApResponse>)
        requires
            old(self).wf(),
        ensures
            final(self).wf(),
            (final(self).model(), response_view(r)) == parse_until_frame(
                old(self).model(),
                bytes@,
            ),
    {
        let mut i: usize = 0;
        proof {
            assert(bytes@.skip(0) =~= bytes@);
        }
        while i < bytes.len()
            invariant
                i <= bytes@.len(),
                self.wf(),
                parse_until_frame(old(self).model(), bytes@) == parse_until_frame(
                    self.model(),
                    bytes@.skip(i as int),
                ),
            decreases bytes@.len() - i,
        {
            proof {
                assert(bytes@.skip(i as int)[0] == bytes@[i as int]);
                assert(bytes@.skip(i as int).skip(1) =~= bytes@.skip(i + 1));
            }
            let out = self.feed(bytes[i]);
            if out.is_some() {
                return out;
            }
            i = i + 1;
        }
        proof {
            assert(bytes@.skip(i as int).len() == 0);
        }
        None
    }

    /// Feed bytes until a frame arrives that answers a command, setting
    /// aside the device events met on the way.
    ///
    /// Event frames (command bytes 0x80-0x8F) are appended to `events`, in
    /// order, and never returned. Returns the first other frame; the bytes
    /// after it are not consumed. Returns `None` when all bytes were
    /// consumed without completing such a frame.
    pub fn feed_until_command_response(&mut self, bytes: &[u8], events: &mut Vec<ApResponse>) -> (r:
        Option<ApResponse>)
        requires
            old(self).wf(),
        ensures
            final(self).wf(),
            ({
                let (m2, ev, f) = parse_until_response(old(self).model(), bytes@);
                &&& final(self).model() == m2
                &&& frames_view(final(events)@) == frames_view(old(events)@) + ev
                &&& response_view(r) == f
            }),
            r matches Some(resp) ==> !is_event_cmd(resp.cmd),
    {
        let ghost m0 = self.model();
        let ghost ev0 = frames_view(events@);
        let mut i: usize = 0;
        proof {
            assert(bytes@.skip(0) =~= bytes@);
            assert(ev0 + Seq::<Frame>::empty() =~= ev0);
        }
        while i < bytes.len()
            invariant
                i <= bytes@.len(),
                self.wf(),
                m0 == old(self).model(),
                ev0 == frames_view(old(events)@),
                ({
                    let (m2, ev, f) = parse_until_response(m0, bytes@);
                    let (n2, evn, g) = parse_until_response(self.model(), bytes@.skip(i as int));
                    &&& n2 == m2
                    &&& g == f
                    &&& ev0 + ev == frames_view(events@) + evn
                }),
            decreases bytes@.len() - i,
        {
            proof {
                assert(bytes@.skip(i as int)[0] == bytes@[i as int]);
                assert(bytes@.skip(i as int).skip(1) =~= bytes@.skip(i + 1));
            }
            let ghost before = frames_view(events@);
            let ghost mprev = self.model();
            let out = self.feed(bytes[i]);
            match out {
                Some(resp) => {
                    if resp.is_event() {
                        events.push(resp);
                        proof {
                            assert(frames_view(events@) =~= before.push(resp@));
                            let (n2, evn, g) = parse_until_response(self.model(), bytes@.skip(i + 1));
                            assert(before + (seq![resp@] + evn) =~= before.push(resp@) + evn);
                        }
                    } else {
                        proof {
                            assert(response_view(out) == Some(resp@));
                            assert(parse_until_response(mprev, bytes@.skip(i as int)) == (
                                self.model(),
                                Seq::<Frame>::empty(),
                                Some(resp@),
                            ));
                            let (m2, ev, f) = parse_until_response(m0, bytes@);
                            assert(m2 == self.model());
                            assert(f == Some(resp@));
                            assert(ev0 + ev == before + Seq::<Frame>::empty());
                            assert(before + Seq::<Frame>::empty() =~= before);
                            assert(ev0 + ev =~= frames_view(events@));
                            assert(frames_view(events@) =~= ev0 + ev);
                        }
                        return Some(resp);
                    }
                },
                None => {},
            }
            i = i + 1;
        }
        proof {
            assert(bytes@.skip(i as int).len() == 0);
            let (m2, ev, f) = parse_until_response(m0, bytes@);
            assert(frames_view(events@) + Seq::<Frame>::empty() =~= frames_view(events@));
            assert(frames_view(events@) =~= ev0 + ev);
        }
        None
    }
}


// ── Laws of the frame parser ─────────────────────────────────────────────────

/// Every step keeps the parser model well formed.
pub proof fn lemma_step_preserves_wf(m: ParserModel, byte: u8)
    requires
        model_wf(m),
    ensures
        model_wf(parse_step(m, byte).0),
{
}

/// Feeding `a + b` is feeding `a`, then feeding `b` from where `a` left the
/// parser; the frames of both parts come out in order.
pub proof fn lemma_parse_all_append(m: ParserModel, a: Seq<u8>, b: Seq<u8>)
    ensures
        parse_all(m, a + b) == (
            parse_all(parse_all(m, a).0, b).0,
            parse_all(m, a).1 + parse_all(parse_all(m, a).0, b).1,
        ),
    decreases a.len(),
{
    if a.len() == 0 {
        assert(a + b =~= b);
        assert(parse_all(m, a).1 + parse_all(m, b).1 =~= parse_all(m, b).1);
    } else {
        let (m1, out) = parse_step(m, a[0]);
        assert((a + b)[0] == a[0]);
        assert((a + b).skip(1) =~= a.skip(1) + b);
        lemma_parse_all_append(m1, a.skip(1), b);
        let first: Seq<Frame> = match out {
            Some(f) => seq![f],
            None => Seq::empty(),
        };
        let (ma, outa) = parse_all(m1, a.skip(1));
        let (mb, outb) = parse_all(ma, b);
        assert(first + (outa + outb) =~= (first + outa) + outb);
    }
}

/// Collecting the CMD + PAYLOAD bytes: bytes that exactly fill the announced
/// LEN bring the parser to its CRC phase without delivering anything.
proof fn lemma_data_phase(len: u8, d: Seq<u8>, bs: Seq<u8>)
    requires
        1 <= len <= MAX_PAYLOAD_LEN + 1,
        d.len() < len,
        d.len() + bs.len() == len,
    ensures
        parse_all(ParserModel { phase: ParseState::Data, len, data: d }, bs) == (
            ParserModel { phase: ParseState::Crc, len, data: d + bs },
            Seq::<Frame>::empty(),
        ),
    decreases bs.len(),
{
    let m = ParserModel { phase: ParseState::Data, len, data: d };
    let d1 = d.push(bs[0]);
    assert(bs.len() >= 1);
    if bs.len() == 1 {
        assert(bs.skip(1).len() == 0);
        assert(d + bs =~= d1);
        let (m1, out) = parse_step(m, bs[0]);
        assert(parse_all(m1, bs.skip(1)) == (m1, Seq::<Frame>::empty()));
        assert(Seq::<Frame>::empty() + Seq::<Frame>::empty() =~= Seq::<Frame>::empty());
    } else {
        lemma_data_phase(len, d1, bs.skip(1));
        assert(d1 + bs.skip(1) =~= d + bs);
        assert(Seq::<Frame>::empty() + Seq::<Frame>::empty() =~= Seq::<Frame>::empty());
    }
}

/// Bytes that never equal the sync byte are discarded: a waiting parser
/// stays waiting and delivers nothing.
pub proof fn lemma_noise_is_skipped(noise: Seq<u8>)
    requires
        forall|i: int| 0 <= i < noise.len() ==> noise[i] != SYNC_BYTE,
    ensures
        parse_all(sync_model(), noise) == (sync_model(), Seq::<Frame>::empty()),
    decreases noise.len(),
{
    if noise.len() > 0 {
        assert(noise[0] != SYNC_BYTE);
        let rest = noise.skip(1);
        assert forall|i: int| 0 <= i < rest.len() implies rest[i] != SYNC_BYTE by {
            assert(rest[i] == noise[i + 1]);
        }
        lemma_noise_is_skipped(rest);
        assert(Seq::<Frame>::empty() + Seq::<Frame>::empty() =~= Seq::<Frame>::empty());
    }
}

/// The parser state reached after the sync and LEN bytes of a packet.
proof fn lemma_header(len: u8)
    requires
        1 <= len <= MAX_PAYLOAD_LEN + 1,
    ensures
        parse_all(sync_model(), seq![SYNC_BYTE, len]) == (
            ParserModel { phase: ParseState::Data, len, data: Seq::empty() },
            Seq::<Frame>::empty(),
        ),
{
    let h = seq![SYNC_BYTE, len];
    let m1 = ParserModel { phase: ParseState::Len, len: 0, data: Seq::empty() };
    let m2 = ParserModel { phase: ParseState::Data, len, data: Seq::empty() };
    assert(h.skip(1) =~= seq![len]);
    assert(h.skip(1).skip(1) =~= Seq::<u8>::empty());
    assert(parse_all(m2, h.skip(1).skip(1)) == (m2, Seq::<Frame>::empty()));
    assert(parse_all(m1, h.skip(1)) == (m2, Seq::<Frame>::empty() + Seq::<Frame>::empty()));
    assert(Seq::<Frame>::empty() + Seq::<Frame>::empty() =~= Seq::<Frame>::empty());
}

/// Splits a packet into its sync and LEN bytes, its CMD + PAYLOAD body and
/// its CRC byte.
proof fn lemma_packet_shape(cmd: u8, payload: Seq<u8>)
    ensures
        packet_spec(cmd, payload) =~= seq![SYNC_BYTE, (1 + payload.len()) as u8] + (seq![cmd]
            + payload) + seq![crc8_spec(frame_body(cmd, payload))],
        frame_body(cmd, payload) =~= seq![(1 + payload.len()) as u8] + (seq![cmd] + payload),
{
}

/// The CRC phase on a single byte.
proof fn lemma_crc_byte(len: u8, body: Seq<u8>, c: u8)
    requires
        body.len() == len,
        len >= 1,
    ensures
        parse_all(ParserModel { phase: ParseState::Crc, len, data: body }, seq![c]) == (
            sync_model(),
            if c == crc8_spec(seq![len] + body) {
                seq![(body[0], body.skip(1))]
            } else {
                Seq::<Frame>::empty()
            },
        ),
{
    let m = ParserModel { phase: ParseState::Crc, len, data: body };
    let s = seq![c];
    assert(s.skip(1) =~= Seq::<u8>::empty());
    assert(parse_all(sync_model(), s.skip(1)) == (sync_model(), Seq::<Frame>::empty()));
    if c == crc8_spec(seq![len] + body) {
        assert(seq![(body[0], body.skip(1))] + Seq::<Frame>::empty() =~= seq![
            (body[0], body.skip(1)),
        ]);
    } else {
        assert(Seq::<Frame>::empty() + Seq::<Frame>::empty() =~= Seq::<Frame>::empty());
    }
}

/// Round trip: a packet built by [`build_packet`], fed byte by byte into a
/// waiting parser, delivers exactly the command and payload it was built
/// from, at its last byte, and leaves the parser waiting for the next packet.
pub proof fn lemma_packet_roundtrip(cmd: u8, payload: Seq<u8>)
    requires
        payload.len() <= MAX_PAYLOAD_LEN,
    ensures
        parse_all(sync_model(), packet_spec(cmd, payload)) == (sync_model(), seq![(cmd, payload)]),
{
    let len = (1 + payload.len()) as u8;
    let head = seq![SYNC_BYTE, len];
    let body = seq![cmd] + payload;
    let tail = seq![crc8_spec(frame_body(cmd, payload))];
    lemma_packet_shape(cmd, payload);
    lemma_header(len);
    let md = ParserModel { phase: ParseState::Data, len, data: Seq::empty() };
    lemma_data_phase(len, Seq::empty(), body);
    assert(Seq::<u8>::empty() + body =~= body);
    let mc = ParserModel { phase: ParseState::Crc, len, data: body };
    lemma_crc_byte(len, body, crc8_spec(frame_body(cmd, payload)));
    assert(body[0] == cmd);
    assert(body.skip(1) =~= payload);
    lemma_parse_all_append(sync_model(), head, body);
    lemma_parse_all_append(sync_model(), head + body, tail);
    assert(Seq::<Frame>::empty() + Seq::<Frame>::empty() =~= Seq::<Frame>::empty());
    assert(Seq::<Frame>::empty() + seq![(cmd, payload)] =~= seq![(cmd, payload)]);
}

/// One byte after a model: what `parse_step` delivers is all that feeding
/// that byte delivers.
proof fn lemma_parse_one(m: ParserModel, b: u8)
    ensures
        parse_all(m, seq![b]) == (
            parse_step(m, b).0,
            match parse_step(m, b).1 {
                Some(f) => seq![f],
                None => Seq::<Frame>::empty(),
            },
        ),
{
    let s = seq![b];
    assert(s.skip(1) =~= Seq::<u8>::empty());
    assert(s[0] == b);
    let m1 = parse_step(m, b).0;
    assert(parse_all(m1, s.skip(1)) == (m1, Seq::<Frame>::empty()));
    let first: Seq<Frame> = match parse_step(m, b).1 {
        Some(f) => seq![f],
        None => Seq::empty(),
    };
    assert(first + Seq::<Frame>::empty() =~= first);
}

/// In bytes that deliver no frame, no single byte delivers one.
proof fn lemma_silent_step(m: ParserModel, s: Seq<u8>, k: int)
    requires
        parse_all(m, s).1.len() == 0,
        0 <= k < s.len(),
    ensures
        parse_step(parse_all(m, s.take(k)).0, s[k]).1 is None,
{
    assert(s =~= s.take(k + 1) + s.skip(k + 1));
    lemma_parse_all_append(m, s.take(k + 1), s.skip(k + 1));
    assert(s.take(k + 1) =~= s.take(k) + seq![s[k]]);
    lemma_parse_all_append(m, s.take(k), seq![s[k]]);
    lemma_parse_one(parse_all(m, s.take(k)).0, s[k]);
}

/// A packet is its bytes up to the CRC, which bring a waiting parser to the
/// CRC phase without delivering anything, then its CRC byte.
proof fn lemma_packet_before_crc(cmd: u8, payload: Seq<u8>)
    requires
        payload.len() <= MAX_PAYLOAD_LEN,
    ensures
        packet_spec(cmd, payload) =~= seq![SYNC_BYTE, (1 + payload.len()) as u8] + (seq![cmd]
            + payload) + seq![crc8_spec(frame_body(cmd, payload))],
        parse_all(
            sync_model(),
            seq![SYNC_BYTE, (1 + payload.len()) as u8] + (seq![cmd] + payload),
        ) == (
            ParserModel {
                phase: ParseState::Crc,
                len: (1 + payload.len()) as u8,
                data: seq![cmd] + payload,
            },
            Seq::<Frame>::empty(),
        ),
{
    let len = (1 + payload.len()) as u8;
    let head = seq![SYNC_BYTE, len];
    let body = seq![cmd] + payload;
    lemma_packet_shape(cmd, payload);
    lemma_header(len);
    lemma_data_phase(len, Seq::empty(), body);
    assert(Seq::<u8>::empty() + body =~= body);
    lemma_parse_all_append(sync_model(), head, body);
    assert(Seq::<Frame>::empty() + Seq::<Frame>::empty() =~= Seq::<Frame>::empty());
}

/// Where the response of a built packet arrives: fed byte by byte into a
/// waiting parser, each byte before the last delivers nothing, and the last
/// byte delivers exactly the packet's command and payload and leaves the
/// parser waiting for the next packet.
pub proof fn lemma_packet_positional(cmd: u8, payload: Seq<u8>, k: int)
    requires
        payload.len() <= MAX_PAYLOAD_LEN,
        0 <= k < packet_spec(cmd, payload).len(),
    ensures
        ({
            let bytes = packet_spec(cmd, payload);
            let step = parse_step(parse_all(sync_model(), bytes.take(k)).0, bytes[k]);
            &&& k < bytes.len() - 1 ==> step.1 is None
            &&& k == bytes.len() - 1 ==> step == (sync_model(), Some((cmd, payload)))
        }),
{
    let bytes = packet_spec(cmd, payload);
    let len = (1 + payload.len()) as u8;
    let body = seq![cmd] + payload;
    let pre = seq![SYNC_BYTE, len] + body;
    let crc = crc8_spec(frame_body(cmd, payload));
    lemma_packet_before_crc(cmd, payload);
    assert(bytes =~= pre + seq![crc]);
    if k < bytes.len() - 1 {
        lemma_silent_step(sync_model(), pre, k);
        assert(bytes.take(k) =~= pre.take(k));
        assert(bytes[k] == pre[k]);
    } else {
        assert(bytes.take(k) =~= pre);
        assert(bytes[k] == crc);
        assert(frame_body(cmd, payload) =~= seq![len] + body);
        assert(body[0] == cmd);
        assert(body.skip(1) =~= payload);
    }
}

/// Bytes that deliver only events are set aside: reading on until a
/// command's response continues from where they left the parser, after
/// their events.
proof fn lemma_until_response_after_events(m: ParserModel, a: Seq<u8>, b: Seq<u8>)
    requires
        forall|i: int| 0 <= i < parse_all(m, a).1.len() ==> is_event_cmd(
            (#[trigger] parse_all(m, a).1[i]).0,
        ),
    ensures
        parse_until_response(m, a + b) == ({
            let (m2, ev, r) = parse_until_response(parse_all(m, a).0, b);
            (m2, parse_all(m, a).1 + ev, r)
        }),
    decreases a.len(),
{
    if a.len() == 0 {
        assert(a + b =~= b);
        let (m2, ev, r) = parse_until_response(m, b);
        assert(Seq::<Frame>::empty() + ev =~= ev);
    } else {
        let (m1, out) = parse_step(m, a[0]);
        let first: Seq<Frame> = match out {
            Some(f) => seq![f],
            None => Seq::empty(),
        };
        let rest = parse_all(m1, a.skip(1)).1;
        assert(parse_all(m, a).1 == first + rest);
        assert forall|i: int| 0 <= i < parse_all(m1, a.skip(1)).1.len() implies is_event_cmd(
            (#[trigger] parse_all(m1, a.skip(1)).1[i]).0,
        ) by {
            assert(parse_all(m, a).1[first.len() + i] == rest[i]);
        }
        assert((a + b)[0] == a[0]);
        assert((a + b).skip(1) =~= a.skip(1) + b);
        lemma_until_response_after_events(m1, a.skip(1), b);
        let (m2, ev, r) = parse_until_response(parse_all(m1, a.skip(1)).0, b);
        match out {
            Some(f) => {
                assert(parse_all(m, a).1[0] == f);
                assert(seq![f] + (rest + ev) =~= (seq![f] + rest) + ev);
            },
            None => {
                assert(first + rest =~= rest);
            },
        }
    }
}

/// What the client's read loop relies on when the device speaks on its own:
/// an event packet arriving before a command's response is set aside as an
/// event, and the response that follows is what the command gets, at the
/// response's last byte, with the parser waiting again.
pub proof fn lemma_event_then_response(
    ecmd: u8,
    epayload: Seq<u8>,
    cmd: u8,
    payload: Seq<u8>,
    rest: Seq<u8>,
)
    requires
        is_event_cmd(ecmd),
        !is_event_cmd(cmd),
        epayload.len() <= MAX_PAYLOAD_LEN,
        payload.len() <= MAX_PAYLOAD_LEN,
    ensures
        parse_until_response(
            sync_model(),
            packet_spec(ecmd, epayload) + packet_spec(cmd, payload) + rest,
        ) == (sync_model(), seq![(ecmd, epayload)], Some((cmd, payload))),
{
    let ev = packet_spec(ecmd, epayload);
    let len = (1 + payload.len()) as u8;
    let body = seq![cmd] + payload;
    let pre = seq![SYNC_BYTE, len] + body;
    let crc = crc8_spec(frame_body(cmd, payload));
    lemma_packet_roundtrip(ecmd, epayload);
    lemma_packet_before_crc(cmd, payload);
    let mc = ParserModel { phase: ParseState::Crc, len, data: body };
    assert(ev + packet_spec(cmd, payload) + rest =~= ev + (pre + (seq![crc] + rest)));
    assert(packet_spec(cmd, payload) =~= pre + seq![crc]);
    lemma_until_response_after_events(sync_model(), ev, pre + (seq![crc] + rest));
    lemma_until_response_after_events(sync_model(), pre, seq![crc] + rest);
    let tail = seq![crc] + rest;
    assert(tail[0] == crc);
    assert(frame_body(cmd, payload) =~= seq![len] + body);
    assert(body[0] == cmd);
    assert(body.skip(1) =~= payload);
    assert(parse_step(mc, crc) == (sync_model(), Some((cmd, payload))));
    assert(parse_until_response(mc, tail) == (sync_model(), Seq::<Frame>::empty(), Some((cmd, payload))));
    assert(Seq::<Frame>::empty() + Seq::<Frame>::empty() =~= Seq::<Frame>::empty());
    assert(seq![(ecmd, epayload)] + Seq::<Frame>::empty() =~= seq![(ecmd, epayload)]);
}

/// A packet whose CRC byte is wrong delivers nothing and leaves the parser
/// waiting for the next packet.
pub proof fn lemma_corrupted_crc_rejected(cmd: u8, payload: Seq<u8>, bad_crc: u8)
    requires
        payload.len() <= MAX_PAYLOAD_LEN,
        bad_crc != crc8_spec(frame_body(cmd, payload)),
    ensures
        parse_all(
            sync_model(),
            seq![SYNC_BYTE] + frame_body(cmd, payload) + seq![bad_crc],
        ) == (sync_model(), Seq::<Frame>::empty()),
{
    let len = (1 + payload.len()) as u8;
    let head = seq![SYNC_BYTE, len];
    let body = seq![cmd] + payload;
    let tail = seq![bad_crc];
    assert(seq![SYNC_BYTE] + frame_body(cmd, payload) + seq![bad_crc] =~= head + body + tail);
    lemma_packet_shape(cmd, payload);
    lemma_header(len);
    lemma_data_phase(len, Seq::empty(), body);
    assert(Seq::<u8>::empty() + body =~= body);
    lemma_crc_byte(len, body, bad_crc);
    lemma_parse_all_append(sync_model(), head, body);
    lemma_parse_all_append(sync_model(), head + body, tail);
    assert(Seq::<Frame>::empty() + Seq::<Frame>::empty() =~= Seq::<Frame>::empty());
}

/// Noise before a packet is skipped: the packet still delivers exactly its
/// command and payload.
pub proof fn lemma_packet_after_noise(noise: Seq<u8>, cmd: u8, payload: Seq<u8>)
    requires
        forall|i: int| 0 <= i < noise.len() ==> noise[i] != SYNC_BYTE,
        payload.len() <= MAX_PAYLOAD_LEN,
    ensures
        parse_all(sync_model(), noise + packet_spec(cmd, payload)) == (
            sync_model(),
            seq![(cmd, payload)],
        ),
{
    lemma_noise_is_skipped(noise);
    lemma_packet_roundtrip(cmd, payload);
    lemma_parse_all_append(sync_model(), noise, packet_spec(cmd, payload));
    assert(Seq::<Frame>::empty() + seq![(cmd, payload)] =~= seq![(cmd, payload)]);
}

/// Bytes that deliver no frame only move the parser along: reading on until
/// the first frame continues from where they left it.
pub proof fn lemma_until_frame_after_silence(m: ParserModel, a: Seq<u8>, b: Seq<u8>)
    requires
        parse_all(m, a).1.len() == 0,
    ensures
        parse_until_frame(m, a + b) == parse_until_frame(parse_all(m, a).0, b),
    decreases a.len(),
{
    if a.len() == 0 {
        assert(a + b =~= b);
    } else {
        let (m1, out) = parse_step(m, a[0]);
        let first: Seq<Frame> = match out {
            Some(f) => seq![f],
            None => Seq::empty(),
        };
        let rest = parse_all(m1, a.skip(1)).1;
        assert(parse_all(m, a).1 == first + rest);
        assert(first.len() == 0);
        assert(out is None);
        assert((a + b)[0] == a[0]);
        assert((a + b).skip(1) =~= a.skip(1) + b);
        lemma_until_frame_after_silence(m1, a.skip(1), b);
    }
}

/// What the client's read loop relies on: however the bytes arrive, a
/// waiting parser fed noise, then a packet, then anything else returns
/// exactly the packet's command and payload at the packet's last byte, and
/// is waiting again for the next packet.
pub proof fn lemma_response_after_noise(noise: Seq<u8>, cmd: u8, payload: Seq<u8>, rest: Seq<u8>)
    requires
        forall|i: int| 0 <= i < noise.len() ==> noise[i] != SYNC_BYTE,
        payload.len() <= MAX_PAYLOAD_LEN,
    ensures
        parse_until_frame(sync_model(), noise + packet_spec(cmd, payload) + rest) == (
            sync_model(),
            Some((cmd, payload)),
        ),
{
    let len = (1 + payload.len()) as u8;
    let head = seq![SYNC_BYTE, len];
    let body = seq![cmd] + payload;
    let crc = crc8_spec(frame_body(cmd, payload));
    lemma_packet_shape(cmd, payload);
    lemma_noise_is_skipped(noise);
    lemma_header(len);
    lemma_data_phase(len, Seq::empty(), body);
    assert(Seq::<u8>::empty() + body =~= body);
    let mc = ParserModel { phase: ParseState::Crc, len, data: body };
    lemma_parse_all_append(sync_model(), noise, head);
    assert(Seq::<Frame>::empty() + Seq::<Frame>::empty() =~= Seq::<Frame>::empty());
    lemma_parse_all_append(sync_model(), noise + head, body);
    let a = noise + head + body;
    assert(parse_all(sync_model(), a) == (mc, Seq::<Frame>::empty()));
    assert(noise + packet_spec(cmd, payload) + rest =~= a + (seq![crc] + rest));
    lemma_until_frame_after_silence(sync_model(), a, seq![crc] + rest);
    assert((seq![crc] + rest)[0] == crc);
    assert(body[0] == cmd);
    assert(body.skip(1) =~= payload);
}

} // verus!
