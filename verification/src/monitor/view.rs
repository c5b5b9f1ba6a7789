//! What the monitor draws: pane titles and notices, which lines of a pane
//! are visible, and the status bar's labels. Drawing itself is left to the
//! terminal backend.

use vstd::prelude::*;
use vstd::string::*;

use crate::cli::commands::loglevel::{level_name, level_name_spec};
use crate::text::{dec_spec, dec_string};

use super::app::Pane;

verus! {

/// The colors the monitor uses.
#[derive(Debug, Clone, Copy, PartialEq, Eq, Structural)]
pub enum Tone {
    DarkGray,
    Red,
    Yellow,
    Green,
    Magenta,
    Cyan,
    White,
}

/// How a pane's port is doing.
#[derive(Debug, Clone, Copy, PartialEq, Eq, Structural)]
pub struct PortStatus {
    pub connected: bool,
    pub reconnecting: bool,
    pub port_busy: bool,
}

/// A pane's title.
pub open spec fn pane_title_spec(
    prefix: Seq<char>,
    no_port_title: Seq<char>,
    port_path: Option<Seq<char>>,
    st: PortStatus,
) -> Seq<char> {
    match port_path {
        Some(path) => if st.connected {
            " "@ + prefix + " \u{2014} "@ + path + " "@
        } else if st.port_busy {
            " "@ + prefix + " \u{2014} "@ + path + " (PORT BUSY) "@
        } else if st.reconnecting {
            " "@ + prefix + " \u{2014} "@ + path + " (reconnecting...) "@
        } else {
            " "@ + prefix + " \u{2014} "@ + path + " (not connected) "@
        },
        None => " "@ + prefix + " \u{2014} "@ + no_port_title + " "@,
    }
}

/// The title of a pane: its name, its port and the port's state.
pub fn pane_title(prefix: &str, no_port_title: &str, port_path: Option<&str>, st: PortStatus) -> (r: String)
    ensures
        r@ == pane_title_spec(
            prefix@,
            no_port_title@,
            match port_path {
                Some(p) => Some(p@),
                None => None,
            },
            st,
        ),
{
    let mut r = " ".to_owned();
    r.append(prefix);
    r.append(" \u{2014} ");
    match port_path {
        Some(path) => {
            r.append(path);
            if st.connected {
                r.append(" ");
            } else if st.port_busy {
                r.append(" (PORT BUSY) ");
            } else if st.reconnecting {
                r.append(" (reconnecting...) ");
            } else {
                r.append(" (not connected) ");
            }
        },
        None => {
            r.append(no_port_title);
            r.append(" ");
        },
    }
    r
}

/// The border color of a pane: yellow when focused.
pub fn border_tone(focused: bool) -> (t: Tone)
    ensures
        t == (if focused {
            Tone::Yellow
        } else {
            Tone::DarkGray
        }),
{
    if focused {
        Tone::Yellow
    } else {
        Tone::DarkGray
    }
}

/// What a pane shows in its body.
#[derive(Debug, Clone, Copy, PartialEq, Eq)]
pub enum PaneBody {
    /// A centered notice that the port is not connected.
    Disconnected(&'static str, Tone),
    /// A centered note that nothing arrived yet.
    Waiting(&'static str),
    /// The lines themselves.
    Lines,
}

/// Decides a pane's body: a notice for a disconnected port (when the pane
/// has a port, or always for the serial pane), the waiting note of an
/// empty pane that has one, else the lines.
pub fn pane_body(
    st: PortStatus,
    has_port: bool,
    show_disconnected_without_port: bool,
    idle_text: &'static str,
    waiting_text: Option<&'static str>,
    has_lines: bool,
) -> (b: PaneBody)
    ensures
        !st.connected && (show_disconnected_without_port || has_port) ==> (match b {
            PaneBody::Disconnected(text, tone) => if st.port_busy {
                text@ == "(port busy \u{2014} close other process)"@ && tone == Tone::Red
            } else if st.reconnecting {
                text@ == "(reconnecting...)"@ && tone == Tone::Yellow
            } else {
                text == idle_text && tone == Tone::DarkGray
            },
            _ => false,
        }),
        !(!st.connected && (show_disconnected_without_port || has_port)) ==> (match waiting_text {
            Some(w) => if !has_lines {
                b == PaneBody::Waiting(w)
            } else {
                b == PaneBody::Lines
            },
            None => b == PaneBody::Lines,
        }),
{
    if !st.connected && (show_disconnected_without_port || has_port) {
        if st.port_busy {
            return PaneBody::Disconnected("(port busy \u{2014} close other process)", Tone::Red);
        } else if st.reconnecting {
            return PaneBody::Disconnected("(reconnecting...)", Tone::Yellow);
        } else {
            return PaneBody::Disconnected(idle_text, Tone::DarkGray);
        }
    }
    match waiting_text {
        Some(w) => if !has_lines {
            PaneBody::Waiting(w)
        } else {
            PaneBody::Lines
        },
        None => PaneBody::Lines,
    }
}

/// The visible lines of a pane of `total` lines scrolled `scroll` lines up
/// from the latest, in a body of `height` lines: `start..end`.
pub open spec fn visible_range_spec(total: nat, scroll: nat, height: nat) -> (nat, nat) {
    let end: nat = if total >= scroll {
        (total - scroll) as nat
    } else {
        0
    };
    let start: nat = if end >= height {
        (end - height) as nat
    } else {
        0
    };
    if total == 0 {
        (0, 0)
    } else {
        (start, end)
    }
}

/// Which lines of a pane are visible.
pub fn visible_range(total: usize, scroll: usize, height: usize) -> (r: (usize, usize))
    ensures
        (r.0 as nat, r.1 as nat) == visible_range_spec(total as nat, scroll as nat, height as nat),
        r.0 <= r.1 <= total,
{
    if total == 0 {
        return (0, 0);
    }
    let end = if total >= scroll {
        total - scroll
    } else {
        0
    };
    let start = if end >= height {
        end - height
    } else {
        0
    };
    (start, end)
}

/// The marker replacing the last visible line of a scrolled pane.
pub fn scroll_indicator(scroll: usize, total: usize) -> (r: String)
    ensures
        r@ == " \u{2191} "@ + dec_spec(
            (if scroll < total {
                scroll
            } else {
                total
            }) as nat,
        ) + " more below "@,
{
    let n = if scroll < total {
        scroll
    } else {
        total
    };
    let mut r = " \u{2191} ".to_owned();
    r.append(dec_string(n as u64).as_str());
    r.append(" more below ");
    r
}

/// The log level label of the status bar and its color.
pub fn log_level_label(log_level: Option<u8>) -> (r: (String, Tone))
    ensures
        match log_level {
            Some(l) => if l <= 4 {
                r.0@ == "Log:"@ + level_name_spec(l) + " "@ && r.1 == (if l == 1 {
                    Tone::Red
                } else if l == 2 {
                    Tone::Yellow
                } else if l == 3 {
                    Tone::Green
                } else if l == 4 {
                    Tone::Magenta
                } else {
                    Tone::DarkGray
                })
            } else {
                r.0@ == "Log:? "@ && r.1 == Tone::DarkGray
            },
            None => r.0@ == "Log:? "@ && r.1 == Tone::DarkGray,
        },
{
    match log_level {
        Some(l) => {
            if l <= 4 {
                let mut s = "Log:".to_owned();
                s.append(level_name(l));
                s.append(" ");
                let tone = if l == 1 {
                    Tone::Red
                } else if l == 2 {
                    Tone::Yellow
                } else if l == 3 {
                    Tone::Green
                } else if l == 4 {
                    Tone::Magenta
                } else {
                    Tone::DarkGray
                };
                (s, tone)
            } else {
                ("Log:? ".to_owned(), Tone::DarkGray)
            }
        },
        None => ("Log:? ".to_owned(), Tone::DarkGray),
    }
}

/// The focus label of the status bar.
pub fn focus_label(pane: Pane) -> (r: &'static str)
    ensures
        r@ == (match pane {
            Pane::Protocol => "Focus:AP "@,
            Pane::Serial => "Focus:SER "@,
        }),
{
    match pane {
        Pane::Protocol => "Focus:AP ",
        Pane::Serial => "Focus:SER ",
    }
}

/// The device label of the status bar.
pub fn device_label(serial: &str) -> (r: String)
    ensures
        r@ == "["@ + serial@ + "] "@,
{
    let mut r = "[".to_owned();
    r.append(serial);
    r.append("] ");
    r
}

} // verus!
