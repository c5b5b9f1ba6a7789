//! The monitor's state and how it reacts to keys and to what the port
//! readers report.

use vstd::prelude::*;
use vstd::string::*;

use crate::cli::commands::loglevel::{level_name, level_name_spec};
use crate::protocol::packet::{build_packet, packet_spec, CMD_LOG_GET_LEVEL, CMD_LOG_SET_LEVEL};
use crate::text::{chars_of, dec_spec, dec_string};

use super::format::{cmd_payload_spec, cmd_name_spec, format_outgoing};

verus! {

/// Maximum number of lines retained in each log buffer.
pub const MAX_LINES: usize = 1000;

/// Number of lines to scroll per PageUp/PageDown press.
pub const PAGE_SCROLL: usize = 10;

/// Which pane is currently focused for scrolling.
#[derive(Debug, Clone, Copy, PartialEq, Eq, Structural)]
pub enum Pane {
    /// Top pane — AP protocol traffic (CDC1).
    Protocol,
    /// Bottom pane — serial prints (CDC0).
    Serial,
}

/// Actions produced by event handling that the main loop must act on.
#[derive(Debug, Clone, Copy, PartialEq, Eq, Structural)]
pub enum Action {
    /// No external action needed.
    Nothing,
    /// User requested quit.
    Quit,
    /// User requested a runtime log level change.
    SetLogLevel(u8),
}

/// Application state for the monitor.
pub struct App {
    /// CDC0 serial print lines (oldest first).
    pub serial_lines: Vec<String>,
    /// Scroll offset for the serial pane (0 = pinned to bottom / latest).
    pub serial_scroll: usize,
    /// Whether the serial port (CDC0) is connected.
    pub serial_connected: bool,
    /// Whether the serial port is currently attempting to reconnect.
    pub serial_reconnecting: bool,
    /// Whether the serial port is busy (held by another process).
    pub serial_port_busy: bool,
    /// AP protocol traffic lines (oldest first).
    pub ap_lines: Vec<String>,
    /// Scroll offset for the AP pane (0 = pinned to bottom / latest).
    pub ap_scroll: usize,
    /// Whether the AP port (CDC1) is connected.
    pub ap_connected: bool,
    /// Whether the AP port is currently attempting to reconnect.
    pub ap_reconnecting: bool,
    /// Whether the AP port is busy (held by another process).
    pub ap_port_busy: bool,
    /// Which pane currently has focus for scrolling.
    pub active_pane: Pane,
    /// Whether the monitor is still running.
    pub running: bool,
    /// Device serial number (for display).
    pub device_serial: String,
    /// CDC0 port path (for display).
    pub serial_port_path: Option<String>,
    /// AP protocol port path (CDC1).
    pub ap_port_path: Option<String>,
    /// Current runtime log level (None if not yet queried).
    pub log_level: Option<u8>,
}

/// The buffer after appending a line: the newest `MAX_LINES` lines.
pub open spec fn pushed_lines(lines: Seq<String>, line: String) -> Seq<String> {
    let l = lines.push(line);
    if l.len() > MAX_LINES {
        l.skip(l.len() - MAX_LINES)
    } else {
        l
    }
}

/// The scroll offset after appending a line: reduced by the lines dropped
/// from the front, but not below 0.
pub open spec fn pushed_scroll(len: nat, scroll: usize) -> usize {
    if len + 1 > MAX_LINES {
        let excess = len + 1 - MAX_LINES;
        if scroll >= excess {
            (scroll - excess) as usize
        } else {
            0
        }
    } else {
        scroll
    }
}

/// The number of lines after appending one: at most `MAX_LINES`.
pub open spec fn pushed_len(len: nat) -> nat {
    if len + 1 > MAX_LINES {
        MAX_LINES as nat
    } else {
        len + 1
    }
}

/// The scroll offset after appending `k` lines to a buffer of `len` lines.
pub open spec fn scroll_after_pushes(len: nat, scroll: usize, k: nat) -> usize
    decreases k,
{
    if k == 0 {
        scroll
    } else {
        scroll_after_pushes(pushed_len(len), pushed_scroll(len, scroll), (k - 1) as nat)
    }
}

/// The characters of each line.
pub open spec fn lines_view(v: Seq<String>) -> Seq<Seq<char>> {
    v.map_values(|s: String| s@)
}

/// The lines after appending `l`: the newest `MAX_LINES` of them.
pub open spec fn pushed_view(v: Seq<Seq<char>>, l: Seq<char>) -> Seq<Seq<char>> {
    let w = v.push(l);
    if w.len() > MAX_LINES {
        w.skip(w.len() - MAX_LINES)
    } else {
        w
    }
}

proof fn lemma_pushed_view(v: Seq<String>, s: String)
    ensures
        lines_view(pushed_lines(v, s)) == pushed_view(lines_view(v), s@),
{
    assert(lines_view(v.push(s)) =~= lines_view(v).push(s@));
    let w = v.push(s);
    if w.len() > MAX_LINES {
        assert(lines_view(w.skip(w.len() - MAX_LINES)) =~= lines_view(w).skip(w.len() - MAX_LINES));
    }
}

/// Pushes a line into a buffer, trimming to `MAX_LINES` and adjusting the
/// scroll offset so the view does not jump.
pub fn push_line(lines: &mut Vec<String>, scroll: &mut usize, line: String)
    ensures
        final(lines)@ == pushed_lines(old(lines)@, line),
        *final(scroll) == pushed_scroll(old(lines)@.len(), *old(scroll)),
{
    lines.push(line);
    if lines.len() > MAX_LINES {
        let excess = lines.len() - MAX_LINES;
        let kept = lines.split_off(excess);
        *lines = kept;
        *scroll = if *scroll >= excess {
            *scroll - excess
        } else {
            0
        };
    }
}

/// Which key was pressed (the keys the monitor reacts to).
#[derive(Debug, Clone, Copy, PartialEq, Eq, Structural)]
pub enum KeyCode {
    Esc,
    PageUp,
    PageDown,
    Up,
    Down,
    Tab,
    Char(char),
    Other,
}

/// A key press and whether Control was held.
#[derive(Debug, Clone, Copy, PartialEq, Eq, Structural)]
pub struct KeyPress {
    pub code: KeyCode,
    pub ctrl: bool,
}

/// The pane that is not `p`: where Tab moves the focus.
pub open spec fn other_pane(p: Pane) -> Pane {
    match p {
        Pane::Protocol => Pane::Serial,
        Pane::Serial => Pane::Protocol,
    }
}

/// The scroll offset after scrolling up `n` lines in a pane of `total` lines.
pub open spec fn scrolled_up(scroll: usize, n: usize, total: nat) -> usize {
    let s = if scroll + n > usize::MAX {
        usize::MAX as int
    } else {
        scroll + n
    };
    if s > total {
        total as usize
    } else {
        s as usize
    }
}

/// The scroll offset after scrolling down `n` lines (towards the latest).
pub open spec fn scrolled_down(scroll: usize, n: usize) -> usize {
    if scroll >= n {
        (scroll - n) as usize
    } else {
        0
    }
}

/// The two apps agree on everything but the protocol pane's lines and scroll.
pub open spec fn same_but_ap_lines(a: App, b: App) -> bool {
    &&& a.serial_lines == b.serial_lines
    &&& a.serial_scroll == b.serial_scroll
    &&& a.serial_connected == b.serial_connected
    &&& a.serial_reconnecting == b.serial_reconnecting
    &&& a.serial_port_busy == b.serial_port_busy
    &&& a.ap_connected == b.ap_connected
    &&& a.ap_reconnecting == b.ap_reconnecting
    &&& a.ap_port_busy == b.ap_port_busy
    &&& a.active_pane == b.active_pane
    &&& a.running == b.running
    &&& a.device_serial == b.device_serial
    &&& a.serial_port_path == b.serial_port_path
    &&& a.ap_port_path == b.ap_port_path
    &&& a.log_level == b.log_level
}

/// The two apps agree on everything but the serial pane's lines and scroll.
pub open spec fn same_but_serial_lines(a: App, b: App) -> bool {
    &&& a.ap_lines == b.ap_lines
    &&& a.ap_scroll == b.ap_scroll
    &&& a.serial_connected == b.serial_connected
    &&& a.serial_reconnecting == b.serial_reconnecting
    &&& a.serial_port_busy == b.serial_port_busy
    &&& a.ap_connected == b.ap_connected
    &&& a.ap_reconnecting == b.ap_reconnecting
    &&& a.ap_port_busy == b.ap_port_busy
    &&& a.active_pane == b.active_pane
    &&& a.running == b.running
    &&& a.device_serial == b.device_serial
    &&& a.serial_port_path == b.serial_port_path
    &&& a.ap_port_path == b.ap_port_path
    &&& a.log_level == b.log_level
}

/// The two apps agree on everything but the panes' lines and scroll offsets.
pub open spec fn same_but_lines_and_scroll(a: App, b: App) -> bool {
    &&& a.serial_connected == b.serial_connected
    &&& a.serial_reconnecting == b.serial_reconnecting
    &&& a.serial_port_busy == b.serial_port_busy
    &&& a.ap_connected == b.ap_connected
    &&& a.ap_reconnecting == b.ap_reconnecting
    &&& a.ap_port_busy == b.ap_port_busy
    &&& a.active_pane == b.active_pane
    &&& a.running == b.running
    &&& a.device_serial == b.device_serial
    &&& a.serial_port_path == b.serial_port_path
    &&& a.ap_port_path == b.ap_port_path
    &&& a.log_level == b.log_level
}

/// The app after scrolling its focused pane up `n` lines.
pub open spec fn after_scroll_up(a: App, n: usize) -> App {
    match a.active_pane {
        Pane::Protocol => App { ap_scroll: scrolled_up(a.ap_scroll, n, a.ap_lines@.len()), ..a },
        Pane::Serial => App {
            serial_scroll: scrolled_up(a.serial_scroll, n, a.serial_lines@.len()),
            ..a
        },
    }
}

/// The app after scrolling its focused pane down `n` lines.
pub open spec fn after_scroll_down(a: App, n: usize) -> App {
    match a.active_pane {
        Pane::Protocol => App { ap_scroll: scrolled_down(a.ap_scroll, n), ..a },
        Pane::Serial => App { serial_scroll: scrolled_down(a.serial_scroll, n), ..a },
    }
}

impl App {
    /// Create a new App with the given device info.
    pub fn new(
        device_serial: String,
        serial_port_path: Option<String>,
        serial_connected: bool,
        ap_port_path: Option<String>,
    ) -> (app: Self)
        ensures
            app.serial_lines@.len() == 0,
            app.serial_scroll == 0,
            app.serial_connected == serial_connected,
            !app.serial_reconnecting,
            !app.serial_port_busy,
            app.ap_lines@.len() == 0,
            app.ap_scroll == 0,
            !app.ap_connected,
            !app.ap_reconnecting,
            !app.ap_port_busy,
            app.active_pane == Pane::Serial,
            app.running,
            app.device_serial == device_serial,
            app.serial_port_path == serial_port_path,
            app.ap_port_path == ap_port_path,
            app.log_level is None,
    {
        App {
            serial_lines: Vec::new(),
            serial_scroll: 0,
            serial_connected,
            serial_reconnecting: false,
            serial_port_busy: false,
            ap_lines: Vec::new(),
            ap_scroll: 0,
            ap_connected: false,
            ap_reconnecting: false,
            ap_port_busy: false,
            active_pane: Pane::Serial,
            running: true,
            device_serial,
            serial_port_path,
            ap_port_path,
            log_level: None,
        }
    }

    /// Append a line to the serial log buffer.
    pub fn push_serial_line(&mut self, line: String)
        ensures
            final(self).serial_lines@ == pushed_lines(old(self).serial_lines@, line),
            lines_view(final(self).serial_lines@) == pushed_view(
                lines_view(old(self).serial_lines@),
                line@,
            ),
            final(self).serial_scroll == pushed_scroll(
                old(self).serial_lines@.len(),
                old(self).serial_scroll,
            ),
            same_but_serial_lines(*final(self), *old(self)),
    {
        proof {
            lemma_pushed_view(self.serial_lines@, line);
        }
        push_line(&mut self.serial_lines, &mut self.serial_scroll, line);
    }

    /// Append a line to the AP traffic buffer.
    pub fn push_ap_line(&mut self, line: String)
        ensures
            final(self).ap_lines@ == pushed_lines(old(self).ap_lines@, line),
            lines_view(final(self).ap_lines@) == pushed_view(lines_view(old(self).ap_lines@), line@),
            final(self).ap_scroll == pushed_scroll(old(self).ap_lines@.len(), old(self).ap_scroll),
            same_but_ap_lines(*final(self), *old(self)),
    {
        proof {
            lemma_pushed_view(self.ap_lines@, line);
        }
        push_line(&mut self.ap_lines, &mut self.ap_scroll, line);
    }

    /// Scroll the active pane up by `n` lines, no further than its length.
    pub fn scroll_up(&mut self, n: usize)
        ensures
            *final(self) == after_scroll_up(*old(self), n),
    {
        let (scroll, total) = self.active_scroll_mut();
        let s = scroll.saturating_add(n);
        *scroll = if s < total {
            s
        } else {
            total
        };
    }

    /// Scroll the active pane down by `n` lines (towards latest).
    pub fn scroll_down(&mut self, n: usize)
        ensures
            *final(self) == after_scroll_down(*old(self), n),
    {
        let (scroll, _total) = self.active_scroll_mut();
        *scroll = scroll.saturating_sub(n);
    }

    /// The scroll offset and the number of lines of the focused pane, the
    /// offset lent out for updating.
    fn active_scroll_mut(&mut self) -> ((scroll, total): (&mut usize, usize))
        ensures
            *scroll == (match old(self).active_pane {
                Pane::Protocol => old(self).ap_scroll,
                Pane::Serial => old(self).serial_scroll,
            }),
            total == (match old(self).active_pane {
                Pane::Protocol => old(self).ap_lines@.len(),
                Pane::Serial => old(self).serial_lines@.len(),
            }),
            *final(self) == (match old(self).active_pane {
                Pane::Protocol => App { ap_scroll: *final(scroll), ..*old(self) },
                Pane::Serial => App { serial_scroll: *final(scroll), ..*old(self) },
            }),
    {
        match self.active_pane {
            Pane::Protocol => {
                let total = self.ap_lines.len();
                (&mut self.ap_scroll, total)
            },
            Pane::Serial => {
                let total = self.serial_lines.len();
                (&mut self.serial_scroll, total)
            },
        }
    }

    /// Toggle the focused pane.
    pub fn toggle_pane(&mut self)
        ensures
            *final(self) == (App { active_pane: other_pane(old(self).active_pane), ..*old(self) }),
    {
        self.active_pane = match self.active_pane {
            Pane::Protocol => Pane::Serial,
            Pane::Serial => Pane::Protocol,
        };
    }
}

// ── Keys ─────────────────────────────────────────────────────────────────────

/// Handles a key press, updating the app and returning the action for the
/// main loop: Esc or Ctrl+C quits; Tab switches the focused pane;
/// PageUp/PageDown scroll the focused pane by a page and Up/Down by a line;
/// '1'-'4' ask for runtime log levels ERROR-DEBUG.
pub fn handle_key_event(app: &mut App, key: KeyPress) -> (a: Action)
    ensures
        match key.code {
            KeyCode::Esc => a == Action::Quit && *final(app) == (App { running: false, ..*old(app) }),
            KeyCode::Char(c) => if c == 'c' && key.ctrl {
                a == Action::Quit && *final(app) == (App { running: false, ..*old(app) })
            } else if c == '1' {
                a == Action::SetLogLevel(1) && *final(app) == *old(app)
            } else if c == '2' {
                a == Action::SetLogLevel(2) && *final(app) == *old(app)
            } else if c == '3' {
                a == Action::SetLogLevel(3) && *final(app) == *old(app)
            } else if c == '4' {
                a == Action::SetLogLevel(4) && *final(app) == *old(app)
            } else {
                a == Action::Nothing && *final(app) == *old(app)
            },
            KeyCode::PageUp => a == Action::Nothing && *final(app) == after_scroll_up(
                *old(app),
                PAGE_SCROLL,
            ),
            KeyCode::Up => a == Action::Nothing && *final(app) == after_scroll_up(*old(app), 1),
            KeyCode::PageDown => a == Action::Nothing && *final(app) == after_scroll_down(
                *old(app),
                PAGE_SCROLL,
            ),
            KeyCode::Down => a == Action::Nothing && *final(app) == after_scroll_down(*old(app), 1),
            KeyCode::Tab => a == Action::Nothing && *final(app) == (App {
                active_pane: other_pane(old(app).active_pane),
                ..*old(app)
            }),
            _ => a == Action::Nothing && *final(app) == *old(app),
        },
{
    match key.code {
        KeyCode::Esc => {
            app.running = false;
            Action::Quit
        },
        KeyCode::Char(c) => {
            if c == 'c' && key.ctrl {
                app.running = false;
                Action::Quit
            } else if c == '1' {
                Action::SetLogLevel(1)
            } else if c == '2' {
                Action::SetLogLevel(2)
            } else if c == '3' {
                Action::SetLogLevel(3)
            } else if c == '4' {
                Action::SetLogLevel(4)
            } else {
                Action::Nothing
            }
        },
        KeyCode::PageUp => {
            app.scroll_up(PAGE_SCROLL);
            Action::Nothing
        },
        KeyCode::PageDown => {
            app.scroll_down(PAGE_SCROLL);
            Action::Nothing
        },
        KeyCode::Up => {
            app.scroll_up(1);
            Action::Nothing
        },
        KeyCode::Down => {
            app.scroll_down(1);
            Action::Nothing
        },
        KeyCode::Tab => {
            app.toggle_pane();
            Action::Nothing
        },
        _ => Action::Nothing,
    }
}

// ── Log level ────────────────────────────────────────────────────────────────

/// `s` with every leading copy of `p` removed (`trim_start_matches`).
pub open spec fn strip_prefix_all(s: Seq<char>, p: Seq<char>) -> Seq<char>
    decreases s.len(),
{
    if p.len() > 0 && s.len() >= p.len() && s.take(p.len() as int) == p {
        strip_prefix_all(s.skip(p.len() as int), p)
    } else {
        s
    }
}

/// `s` with every trailing `c` removed (`trim_end_matches`).
pub open spec fn strip_suffix_char(s: Seq<char>, c: char) -> Seq<char>
    decreases s.len(),
{
    if s.len() > 0 && s.last() == c {
        strip_suffix_char(s.drop_last(), c)
    } else {
        s
    }
}

/// The value of a hexadecimal digit.
pub open spec fn hex_value(c: char) -> Option<u8> {
    if '0' <= c && c <= '9' {
        Some((c as u32 - 48) as u8)
    } else if 'a' <= c && c <= 'f' {
        Some((c as u32 - 87) as u8)
    } else if 'A' <= c && c <= 'F' {
        Some((c as u32 - 55) as u8)
    } else {
        None
    }
}

/// A two-character base-16 number as `u8::from_str_radix` reads it (a
/// leading '+' is accepted).
pub open spec fn radix16_two(s: Seq<char>) -> Option<u8> {
    if s.len() != 2 {
        None
    } else if s[0] == '+' {
        hex_value(s[1])
    } else {
        match (hex_value(s[0]), hex_value(s[1])) {
            (Some(a), Some(b)) => Some((16 * a + b) as u8),
            _ => None,
        }
    }
}

/// The prefix of a displayed OK response.
pub open spec fn ok_prefix() -> Seq<char> {
    "\u{2190} OK ["@
}

/// The log level a displayed AP line reports: a one-byte OK payload of at
/// most 4.
pub open spec fn log_level_in_line(line: Seq<char>) -> Option<u8> {
    if line.len() >= ok_prefix().len() && line.take(ok_prefix().len() as int) == ok_prefix() {
        let h = strip_suffix_char(strip_prefix_all(line, ok_prefix()), ']');
        match radix16_two(h) {
            Some(v) => if v <= 4 {
                Some(v)
            } else {
                None
            },
            None => None,
        }
    } else {
        None
    }
}

fn hex_value_exec(c: char) -> (r: Option<u8>)
    ensures
        r == hex_value(c),
{
    if '0' <= c && c <= '9' {
        Some((c as u32 - 48) as u8)
    } else if 'a' <= c && c <= 'f' {
        Some((c as u32 - 87) as u8)
    } else if 'A' <= c && c <= 'F' {
        Some((c as u32 - 55) as u8)
    } else {
        None
    }
}

fn starts_at(cs: &Vec<char>, pos: usize, p: &Vec<char>) -> (r: bool)
    requires
        pos <= cs@.len(),
    ensures
        r == (cs@.len() - pos >= p@.len() && cs@.skip(pos as int).take(p@.len() as int) == p@),
{
    if cs.len() - pos < p.len() {
        return false;
    }
    let mut k: usize = 0;
    while k < p.len()
        invariant
            pos + p@.len() <= cs@.len(),
            cs@.len() == cs.len(),
            p@.len() == p.len(),
            k <= p@.len(),
            forall|j: int| 0 <= j < k ==> cs@[pos + j] == p@[j],
        decreases p@.len() - k,
    {
        if cs[pos + k] != p[k] {
            proof {
                assert(cs@.skip(pos as int).take(p@.len() as int)[k as int] != p@[k as int]);
            }
            return false;
        }
        k = k + 1;
    }
    proof {
        assert(cs@.skip(pos as int).take(p@.len() as int) =~= p@);
    }
    true
}

/// Reads the log level reported by a LOG_GET_LEVEL OK response line, if it
/// is one, into the status bar.
pub fn parse_log_level_from_line(line: &str, app: &mut App)
    ensures
        final(app).log_level == (match log_level_in_line(line@) {
            Some(v) => Some(v),
            None => old(app).log_level,
        }),
        final(app).serial_lines == old(app).serial_lines,
        final(app).ap_lines == old(app).ap_lines,
        final(app).serial_scroll == old(app).serial_scroll,
        final(app).ap_scroll == old(app).ap_scroll,
        final(app).ap_connected == old(app).ap_connected,
        final(app).serial_connected == old(app).serial_connected,
        final(app).serial_reconnecting == old(app).serial_reconnecting,
        final(app).serial_port_busy == old(app).serial_port_busy,
        final(app).ap_reconnecting == old(app).ap_reconnecting,
        final(app).ap_port_busy == old(app).ap_port_busy,
        final(app).active_pane == old(app).active_pane,
        final(app).running == old(app).running,
        final(app).device_serial == old(app).device_serial,
        final(app).serial_port_path == old(app).serial_port_path,
        final(app).ap_port_path == old(app).ap_port_path,
{
    let cs = chars_of(line);
    let p = chars_of("\u{2190} OK [");
    proof {
        reveal_strlit("\u{2190} OK [");
    }
    if !starts_at(&cs, 0, &p) {
        proof {
            assert(cs@.skip(0) =~= cs@);
        }
        return;
    }
    proof {
        assert(cs@.skip(0) =~= cs@);
    }
    // Strip every leading copy of the prefix.
    let mut start: usize = 0;
    while starts_at(&cs, start, &p)
        invariant
            start <= cs@.len(),
            cs@ == line@,
            cs@.len() == cs.len(),
            p@.len() == p.len(),
            p@ == ok_prefix(),
            p@.len() > 0,
            strip_prefix_all(line@, ok_prefix()) == strip_prefix_all(cs@.skip(start as int), ok_prefix()),
        decreases cs@.len() - start,
    {
        proof {
            let t = cs@.skip(start as int);
            assert(t.skip(p@.len() as int) =~= cs@.skip(start + p@.len()));
        }
        start = start + p.len();
    }
    // Strip every trailing ']'.
    let mut end: usize = cs.len();
    proof {
        assert(cs@.skip(start as int).take(p@.len() as int) != p@ || cs@.len() - start < p@.len());
        assert(strip_prefix_all(cs@.skip(start as int), ok_prefix()) == cs@.skip(start as int));
        assert(cs@.subrange(start as int, end as int) =~= cs@.skip(start as int));
    }
    while end > start && cs[end - 1] == ']'
        invariant
            start <= end <= cs@.len(),
            strip_suffix_char(strip_prefix_all(line@, ok_prefix()), ']') == strip_suffix_char(
                cs@.subrange(start as int, end as int),
                ']',
            ),
        decreases end,
    {
        proof {
            assert(cs@.subrange(start as int, end as int).drop_last() =~= cs@.subrange(
                start as int,
                end - 1,
            ));
        }
        end = end - 1;
    }
    let ghost h = cs@.subrange(start as int, end as int);
    proof {
        assert(strip_suffix_char(h, ']') == h);
    }
    if end - start != 2 {
        return;
    }
    let c0 = cs[start];
    let c1 = cs[start + 1];
    proof {
        assert(h[0] == c0 && h[1] == c1);
    }
    let value: Option<u8> = if c0 == '+' {
        hex_value_exec(c1)
    } else {
        match (hex_value_exec(c0), hex_value_exec(c1)) {
            (Some(a), Some(b)) => Some(16 * a + b),
            _ => None,
        }
    };
    match value {
        Some(v) => {
            if v <= 4 {
                app.log_level = Some(v);
            }
        },
        None => {},
    }
}

/// The line shown in the serial pane after a log level change.
pub open spec fn level_set_line(level: u8) -> Seq<char> {
    "[Log level set to "@ + dec_spec(level as nat) + " ("@ + level_name_spec(level) + ")]"@
}

impl App {
    /// The packet that asks for log level `level`, when the AP port is
    /// connected; otherwise says so in the AP pane and returns `None`.
    pub fn log_level_request(&mut self, level: u8) -> (r: Option<Vec<u8>>)
        ensures
            old(self).ap_connected ==> (r matches Some(p) && p@ == packet_spec(
                CMD_LOG_SET_LEVEL,
                seq![level],
            )) && *final(self) == *old(self),
            !old(self).ap_connected ==> r is None && final(self).ap_lines@ == pushed_lines(
                old(self).ap_lines@,
                final(self).ap_lines@.last(),
            ) && final(self).ap_lines@.last()@ == "[No AP connection for log level control]"@
                && final(self).ap_scroll == pushed_scroll(old(self).ap_lines@.len(), old(self).ap_scroll)
                && same_but_ap_lines(*final(self), *old(self)),
    {
        if !self.ap_connected {
            self.push_ap_line("[No AP connection for log level control]".to_owned());
            return None;
        }
        let payload = vec![level];
        proof {
            assert(payload@ =~= seq![level]);
        }
        Some(build_packet(CMD_LOG_SET_LEVEL, payload.as_slice()))
    }

    /// Records the outcome of sending a log level request: on success the
    /// level is shown (optimistically, the response confirms it in the AP
    /// pane) and announced in the serial pane; on failure the AP pane says so.
    pub fn log_level_sent(&mut self, level: u8, sent: bool)
        ensures
            sent ==> final(self).log_level == Some(level) && final(self).serial_lines@
                == pushed_lines(old(self).serial_lines@, final(self).serial_lines@.last())
                && final(self).serial_lines@.last()@ == level_set_line(level)
                && final(self).serial_scroll == pushed_scroll(
                old(self).serial_lines@.len(),
                old(self).serial_scroll,
            ) && same_but_serial_lines(*final(self), (App { log_level: Some(level), ..*old(self) })),
            !sent ==> final(self).log_level == old(self).log_level && final(self).ap_lines@
                == pushed_lines(old(self).ap_lines@, final(self).ap_lines@.last())
                && final(self).ap_lines@.last()@ == "[Failed to send log level command]"@
                && final(self).ap_scroll == pushed_scroll(old(self).ap_lines@.len(), old(self).ap_scroll)
                && same_but_ap_lines(*final(self), *old(self)),
    {
        if !sent {
            self.push_ap_line("[Failed to send log level command]".to_owned());
            return;
        }
        self.log_level = Some(level);
        let mut line = "[Log level set to ".to_owned();
        line.append(dec_string(level as u64).as_str());
        line.append(" (");
        line.append(level_name(level));
        line.append(")]");
        self.push_serial_line(line);
    }
}

/// The displayed form of an outgoing packet (its command and payload
/// between the header and the CRC), for packets of at least 4 bytes.
pub fn outgoing_line(pkt: &[u8]) -> (r: Option<String>)
    ensures
        pkt@.len() < 4 ==> r is None,
        pkt@.len() >= 4 ==> (r matches Some(line) && {
            let cmd = pkt@[2];
            let payload = if pkt@.len() > 4 {
                pkt@.subrange(3, pkt@.len() - 1)
            } else {
                Seq::empty()
            };
            line@ == (if cmd_payload_spec(cmd, payload).len() == 0 {
                "\u{2192} "@ + cmd_name_spec(cmd)
            } else {
                "\u{2192} "@ + cmd_name_spec(cmd) + " "@ + cmd_payload_spec(cmd, payload)
            })
        }),
{
    if pkt.len() < 4 {
        return None;
    }
    let cmd = pkt[2];
    let mut payload: Vec<u8> = Vec::new();
    if pkt.len() > 4 {
        let mut k: usize = 3;
        while k < pkt.len() - 1
            invariant
                pkt@.len() > 4,
                3 <= k <= pkt@.len() - 1,
                payload@ == pkt@.subrange(3, k as int),
            decreases pkt@.len() - k,
        {
            payload.push(pkt[k]);
            k = k + 1;
            proof {
                assert(payload@ =~= pkt@.subrange(3, k as int));
            }
        }
    } else {
        proof {
            assert(payload@ =~= Seq::<u8>::empty());
        }
    }
    Some(format_outgoing(cmd, payload.as_slice()))
}

/// The packet that asks the device for its runtime log level.
pub fn log_level_query() -> (p: Vec<u8>)
    ensures
        p@ == packet_spec(CMD_LOG_GET_LEVEL, Seq::empty()),
{
    let payload: Vec<u8> = Vec::new();
    build_packet(CMD_LOG_GET_LEVEL, payload.as_slice())
}

// ── Port readers ─────────────────────────────────────────────────────────────

/// How opening a port went.
#[derive(Debug, Clone, Copy, PartialEq, Eq, Structural)]
pub enum PortOpen {
    Connected,
    Busy,
    Failed,
}

/// The (connected, reconnecting, busy) flags a port starts with after an
/// open attempt: a busy or failed port is retried in the background.
pub fn port_flags(r: PortOpen) -> (f: (bool, bool, bool))
    ensures
        f == (match r {
            PortOpen::Connected => (true, false, false),
            PortOpen::Busy => (false, false, true),
            PortOpen::Failed => (false, true, false),
        }),
{
    match r {
        PortOpen::Connected => (true, false, false),
        PortOpen::Busy => (false, false, true),
        PortOpen::Failed => (false, true, false),
    }
}

/// Messages sent from background reader tasks to the main event loop.
#[derive(Debug)]
pub enum ReaderMsg {
    /// A line received from the serial prints port (CDC0).
    SerialLine(String),
    /// The serial port reader encountered an unrecoverable error.
    SerialError(String),
    /// The serial port is busy — another process has it open.
    SerialPortBusy(String),
    /// The serial port was successfully reconnected.
    SerialReconnected,
    /// A formatted AP traffic line to display (incoming response/event).
    ApLine(String),
    /// The AP port reader encountered an unrecoverable error.
    ApError(String),
    /// The AP port is busy.
    ApPortBusy(String),
    /// The AP port was successfully (re)connected.
    ApConnected,
}

/// What the main loop must do after a reader message.
#[derive(Debug)]
pub enum ReaderEffect {
    /// Nothing beyond redrawing.
    Nothing,
    /// Start reconnecting the serial port at this path.
    SpawnSerialReconnect(String),
    /// Ask the device for its runtime log level.
    QueryLogLevel,
}

/// The serial-pane side of the app is unchanged.
pub open spec fn serial_side_kept(a: App, b: App) -> bool {
    &&& a.serial_lines == b.serial_lines
    &&& a.serial_scroll == b.serial_scroll
    &&& a.serial_connected == b.serial_connected
    &&& a.serial_reconnecting == b.serial_reconnecting
    &&& a.serial_port_busy == b.serial_port_busy
}

/// The AP-pane side of the app is unchanged.
pub open spec fn ap_side_kept(a: App, b: App) -> bool {
    &&& a.ap_lines == b.ap_lines
    &&& a.ap_scroll == b.ap_scroll
    &&& a.ap_connected == b.ap_connected
    &&& a.ap_reconnecting == b.ap_reconnecting
    &&& a.ap_port_busy == b.ap_port_busy
    &&& a.log_level == b.log_level
}

fn bracketed(prefix: &str, m: &String) -> (r: String)
    ensures
        r@ == prefix@ + m@ + "]"@,
{
    let mut r = prefix.to_owned();
    r.append(m.as_str());
    r.append("]");
    r
}

impl App {
    /// Updates the app for a message from a port reader and says what the
    /// main loop must do next.
    #[verifier::rlimit(40)]
    pub fn handle_reader_msg(&mut self, msg: ReaderMsg) -> (e: ReaderEffect)
        ensures
            final(self).active_pane == old(self).active_pane,
            final(self).running == old(self).running,
            final(self).device_serial == old(self).device_serial,
            final(self).serial_port_path == old(self).serial_port_path,
            final(self).ap_port_path == old(self).ap_port_path,
            match msg {
                ReaderMsg::SerialLine(l) => {
                    &&& lines_view(final(self).serial_lines@) == pushed_view(
                        lines_view(old(self).serial_lines@),
                        l@,
                    )
                    &&& final(self).serial_connected == old(self).serial_connected
                    &&& final(self).serial_reconnecting == old(self).serial_reconnecting
                    &&& final(self).serial_port_busy == old(self).serial_port_busy
                    &&& final(self).serial_scroll == pushed_scroll(
                        old(self).serial_lines@.len(),
                        old(self).serial_scroll,
                    )
                    &&& ap_side_kept(*final(self), *old(self))
                    &&& e is Nothing
                },
                ReaderMsg::SerialError(err) => {
                    let l1 = "[ERROR: "@ + err@ + "]"@;
                    &&& !final(self).serial_connected
                    &&& final(self).serial_port_busy == old(self).serial_port_busy
                    &&& ap_side_kept(*final(self), *old(self))
                    &&& match old(self).serial_port_path {
                        Some(p) => {
                            &&& final(self).serial_reconnecting
                            &&& lines_view(final(self).serial_lines@) == pushed_view(
                                pushed_view(lines_view(old(self).serial_lines@), l1),
                                "Attempting to reconnect..."@,
                            )
                            &&& final(self).serial_scroll == scroll_after_pushes(
                                old(self).serial_lines@.len(),
                                old(self).serial_scroll,
                                2,
                            )
                            &&& e matches ReaderEffect::SpawnSerialReconnect(q) && q@ == p@
                        },
                        None => {
                            &&& final(self).serial_reconnecting == old(self).serial_reconnecting
                            &&& lines_view(final(self).serial_lines@) == pushed_view(
                                lines_view(old(self).serial_lines@),
                                l1,
                            )
                            &&& final(self).serial_scroll == scroll_after_pushes(
                                old(self).serial_lines@.len(),
                                old(self).serial_scroll,
                                1,
                            )
                            &&& e is Nothing
                        },
                    }
                },
                ReaderMsg::SerialReconnected => {
                    &&& final(self).serial_connected
                    &&& !final(self).serial_reconnecting
                    &&& !final(self).serial_port_busy
                    &&& lines_view(final(self).serial_lines@) == pushed_view(
                        lines_view(old(self).serial_lines@),
                        "Reconnected. Listening for serial prints..."@,
                    )
                    &&& final(self).serial_scroll == pushed_scroll(
                        old(self).serial_lines@.len(),
                        old(self).serial_scroll,
                    )
                    &&& ap_side_kept(*final(self), *old(self))
                    &&& e is Nothing
                },
                ReaderMsg::SerialPortBusy(m) => {
                    &&& final(self).serial_connected == old(self).serial_connected
                    &&& !final(self).serial_reconnecting
                    &&& final(self).serial_port_busy
                    &&& lines_view(final(self).serial_lines@) == pushed_view(
                        lines_view(old(self).serial_lines@),
                        "["@ + m@ + "]"@,
                    )
                    &&& final(self).serial_scroll == pushed_scroll(
                        old(self).serial_lines@.len(),
                        old(self).serial_scroll,
                    )
                    &&& ap_side_kept(*final(self), *old(self))
                    &&& e is Nothing
                },
                ReaderMsg::ApLine(l) => {
                    &&& final(self).log_level == (match log_level_in_line(l@) {
                        Some(v) => Some(v),
                        None => old(self).log_level,
                    })
                    &&& lines_view(final(self).ap_lines@) == pushed_view(
                        lines_view(old(self).ap_lines@),
                        l@,
                    )
                    &&& final(self).ap_connected == old(self).ap_connected
                    &&& final(self).ap_reconnecting == old(self).ap_reconnecting
                    &&& final(self).ap_port_busy == old(self).ap_port_busy
                    &&& final(self).ap_scroll == pushed_scroll(
                        old(self).ap_lines@.len(),
                        old(self).ap_scroll,
                    )
                    &&& serial_side_kept(*final(self), *old(self))
                    &&& e is Nothing
                },
                ReaderMsg::ApError(err) => {
                    &&& !final(self).ap_connected
                    &&& final(self).ap_reconnecting
                    &&& final(self).ap_port_busy == old(self).ap_port_busy
                    &&& lines_view(final(self).ap_lines@) == pushed_view(
                        lines_view(old(self).ap_lines@),
                        "[ERROR: "@ + err@ + "]"@,
                    )
                    &&& final(self).ap_scroll == pushed_scroll(
                        old(self).ap_lines@.len(),
                        old(self).ap_scroll,
                    )
                    &&& final(self).log_level == old(self).log_level
                    &&& serial_side_kept(*final(self), *old(self))
                    &&& e is Nothing
                },
                ReaderMsg::ApPortBusy(m) => {
                    &&& final(self).ap_connected == old(self).ap_connected
                    &&& !final(self).ap_reconnecting
                    &&& final(self).ap_port_busy
                    &&& lines_view(final(self).ap_lines@) == pushed_view(
                        lines_view(old(self).ap_lines@),
                        "["@ + m@ + "]"@,
                    )
                    &&& final(self).ap_scroll == pushed_scroll(
                        old(self).ap_lines@.len(),
                        old(self).ap_scroll,
                    )
                    &&& final(self).log_level == old(self).log_level
                    &&& serial_side_kept(*final(self), *old(self))
                    &&& e is Nothing
                },
                ReaderMsg::ApConnected => {
                    &&& final(self).ap_connected
                    &&& !final(self).ap_reconnecting
                    &&& !final(self).ap_port_busy
                    &&& lines_view(final(self).ap_lines@) == pushed_view(
                        lines_view(old(self).ap_lines@),
                        "Connected. Listening for AP traffic..."@,
                    )
                    &&& final(self).ap_scroll == pushed_scroll(
                        old(self).ap_lines@.len(),
                        old(self).ap_scroll,
                    )
                    &&& final(self).log_level == old(self).log_level
                    &&& serial_side_kept(*final(self), *old(self))
                    &&& e is QueryLogLevel
                },
            },
    {
        match msg {
            ReaderMsg::SerialLine(line) => {
                self.push_serial_line(line);
                ReaderEffect::Nothing
            },
            ReaderMsg::SerialError(err) => {
                let ghost len0 = self.serial_lines@.len();
                let ghost scroll0 = self.serial_scroll;
                proof {
                    reveal_with_fuel(scroll_after_pushes, 3);
                }
                self.push_serial_line(bracketed("[ERROR: ", &err));
                assert(self.serial_lines@.len() == pushed_len(len0));
                self.serial_connected = false;
                match &self.serial_port_path {
                    Some(path) => {
                        let path = path.clone();
                        self.serial_reconnecting = true;
                        self.push_serial_line("Attempting to reconnect...".to_owned());
                        ReaderEffect::SpawnSerialReconnect(path)
                    },
                    None => ReaderEffect::Nothing,
                }
            },
            ReaderMsg::SerialReconnected => {
                self.serial_connected = true;
                self.serial_reconnecting = false;
                self.serial_port_busy = false;
                self.push_serial_line("Reconnected. Listening for serial prints...".to_owned());
                ReaderEffect::Nothing
            },
            ReaderMsg::SerialPortBusy(m) => {
                self.push_serial_line(bracketed("[", &m));
                self.serial_reconnecting = false;
                self.serial_port_busy = true;
                ReaderEffect::Nothing
            },
            ReaderMsg::ApLine(line) => {
                parse_log_level_from_line(line.as_str(), self);
                self.push_ap_line(line);
                ReaderEffect::Nothing
            },
            ReaderMsg::ApError(err) => {
                self.push_ap_line(bracketed("[ERROR: ", &err));
                self.ap_connected = false;
                self.ap_reconnecting = true;
                ReaderEffect::Nothing
            },
            ReaderMsg::ApPortBusy(m) => {
                self.push_ap_line(bracketed("[", &m));
                self.ap_reconnecting = false;
                self.ap_port_busy = true;
                ReaderEffect::Nothing
            },
            ReaderMsg::ApConnected => {
                self.ap_connected = true;
                self.ap_reconnecting = false;
                self.ap_port_busy = false;
                self.push_ap_line("Connected. Listening for AP traffic...".to_owned());
                ReaderEffect::QueryLogLevel
            },
        }
    }

    /// The lines shown when the monitor starts: what each connected port is
    /// listening for, then the key help and a blank line in the serial pane.
    pub fn start_banner(&mut self)
        ensures
            lines_view(final(self).serial_lines@) == pushed_view(
                pushed_view(
                    if old(self).serial_connected {
                        pushed_view(
                            lines_view(old(self).serial_lines@),
                            "Listening for serial prints..."@,
                        )
                    } else {
                        lines_view(old(self).serial_lines@)
                    },
                    "Press Esc or Ctrl+C to quit. Tab to switch panes."@,
                ),
                Seq::empty(),
            ),
            lines_view(final(self).ap_lines@) == (if old(self).ap_connected {
                pushed_view(lines_view(old(self).ap_lines@), "Listening for AP traffic..."@)
            } else {
                lines_view(old(self).ap_lines@)
            }),
            final(self).serial_scroll == scroll_after_pushes(
                old(self).serial_lines@.len(),
                old(self).serial_scroll,
                if old(self).serial_connected {
                    3
                } else {
                    2
                },
            ),
            final(self).ap_scroll == scroll_after_pushes(
                old(self).ap_lines@.len(),
                old(self).ap_scroll,
                if old(self).ap_connected {
                    1
                } else {
                    0
                },
            ),
            same_but_lines_and_scroll(*final(self), *old(self)),
    {
        proof {
            reveal_with_fuel(scroll_after_pushes, 4);
        }
        if self.serial_connected {
            self.push_serial_line("Listening for serial prints...".to_owned());
        }
        if self.ap_connected {
            self.push_ap_line("Listening for AP traffic...".to_owned());
        }
        self.push_serial_line("Press Esc or Ctrl+C to quit. Tab to switch panes.".to_owned());
        self.push_serial_line(String::new());
    }
}

// ── Laws of the panes ────────────────────────────────────────────────────────

/// A pane never holds more than `MAX_LINES` lines: pushing onto a buffer
/// within the limit keeps it within the limit, the new line is the newest,
/// and the lines before it keep their order.
pub proof fn lemma_push_bounded(lines: Seq<Seq<char>>, l: Seq<char>)
    requires
        lines.len() <= MAX_LINES,
    ensures
        pushed_view(lines, l).len() <= MAX_LINES,
        pushed_view(lines, l).last() == l,
        pushed_view(lines, l).drop_last() == (if lines.len() == MAX_LINES {
            lines.skip(1)
        } else {
            lines
        }),
{
    let w = lines.push(l);
    if w.len() > MAX_LINES {
        assert(w.skip(1).drop_last() =~= lines.skip(1));
    } else {
        assert(w.drop_last() =~= lines);
    }
}

/// Scrolling up never goes past the first line: the offset stays at most
/// the number of lines once it is.
pub proof fn lemma_scroll_within_lines(scroll: usize, n: usize, total: nat)
    requires
        scroll <= total,
    ensures
        scrolled_up(scroll, n, total) <= total,
        scrolled_up(scroll, n, total) >= scroll,
        scrolled_down(scroll, n) <= scroll,
{
}

/// Scrolling down as far as one scrolled up returns to where one started,
/// when scrolling up did not stop at the first line (a pane holds at most
/// `usize::MAX` lines).
pub proof fn lemma_scroll_down_undoes_up(scroll: usize, n: usize, total: nat)
    requires
        scroll + n <= total,
        total <= usize::MAX,
    ensures
        scrolled_down(scrolled_up(scroll, n, total), n) == scroll,
{
}

/// Switching the focused pane twice brings focus back, and a switch always
/// moves focus to the other pane.
pub proof fn lemma_toggle_twice(p: Pane)
    ensures
        other_pane(other_pane(p)) == p,
        other_pane(p) != p,
{
}

} // verus!
