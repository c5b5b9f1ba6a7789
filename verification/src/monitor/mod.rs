//! The monitor dashboard: AP traffic on top, serial prints below.

pub mod app;
pub mod format;
pub mod view;
