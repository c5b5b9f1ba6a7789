//! State of the debug dashboard: the CDC0 print stream and its scrolling.

use vstd::prelude::*;

use crate::monitor::app::{push_line, pushed_lines, pushed_scroll, scrolled_down, scrolled_up};

verus! {

/// Actions produced by event handling that the main loop must act on.
#[derive(Debug, Clone, Copy, PartialEq, Eq, Structural)]
pub enum Action {
    /// No external action needed.
    Nothing,
    /// User requested quit.
    Quit,
}

/// Application state for the debug dashboard.
pub struct App {
    /// CDC0 debug print lines (oldest first).
    pub debug_lines: Vec<String>,
    /// How many lines the debug pane is scrolled up from the latest (0 = pinned to bottom).
    pub debug_scroll: usize,
    /// Whether the debug CDC port (CDC0) is connected.
    pub debug_connected: bool,
    /// Whether the debug port is currently attempting to reconnect.
    pub debug_reconnecting: bool,
    /// Whether the debug port is busy (held by another process).
    pub debug_port_busy: bool,
    /// Whether the dashboard is still running.
    pub running: bool,
    /// Device serial number (for display).
    pub device_serial: String,
    /// CDC0 port path (for display).
    pub debug_port_path: Option<String>,
}

/// The two apps agree on everything but the debug lines and scroll offset.
pub open spec fn same_but_lines(a: App, b: App) -> bool {
    &&& a.debug_connected == b.debug_connected
    &&& a.debug_reconnecting == b.debug_reconnecting
    &&& a.debug_port_busy == b.debug_port_busy
    &&& a.running == b.running
    &&& a.device_serial == b.device_serial
    &&& a.debug_port_path == b.debug_port_path
}

impl App {
    /// Create a new App with the given device info.
    pub fn new(device_serial: String, debug_port_path: Option<String>, debug_connected: bool) -> (app: Self)
        ensures
            app.debug_lines@.len() == 0,
            app.debug_scroll == 0,
            app.debug_connected == debug_connected,
            !app.debug_reconnecting,
            !app.debug_port_busy,
            app.running,
            app.device_serial == device_serial,
            app.debug_port_path == debug_port_path,
    {
        App {
            debug_lines: Vec::new(),
            debug_scroll: 0,
            debug_connected,
            debug_reconnecting: false,
            debug_port_busy: false,
            running: true,
            device_serial,
            debug_port_path,
        }
    }

    /// Append a line to the debug log buffer, keeping the newest 1000 lines
    /// and adjusting the scroll offset so the view does not jump.
    pub fn push_debug_line(&mut self, line: String)
        ensures
            final(self).debug_lines@ == pushed_lines(old(self).debug_lines@, line),
            final(self).debug_scroll == pushed_scroll(
                old(self).debug_lines@.len(),
                old(self).debug_scroll,
            ),
            same_but_lines(*final(self), *old(self)),
    {
        push_line(&mut self.debug_lines, &mut self.debug_scroll, line);
    }

    /// Scroll up by `n` lines, no further than the number of lines.
    pub fn scroll_up(&mut self, n: usize)
        ensures
            final(self).debug_scroll == scrolled_up(
                old(self).debug_scroll,
                n,
                old(self).debug_lines@.len(),
            ),
            final(self).debug_lines == old(self).debug_lines,
            same_but_lines(*final(self), *old(self)),
    {
        let s = self.debug_scroll.saturating_add(n);
        let total = self.debug_lines.len();
        self.debug_scroll = if s > total {
            total
        } else {
            s
        };
    }

    /// Scroll down by `n` lines (towards latest).
    pub fn scroll_down(&mut self, n: usize)
        ensures
            final(self).debug_scroll == scrolled_down(old(self).debug_scroll, n),
            final(self).debug_lines == old(self).debug_lines,
            same_but_lines(*final(self), *old(self)),
    {
        self.debug_scroll = if self.debug_scroll >= n {
            self.debug_scroll - n
        } else {
            0
        };
    }
}

} // verus!
