//! The single-pane debug dashboard's state.

pub mod app;
