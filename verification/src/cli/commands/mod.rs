//! The logic of the subcommands.

pub mod completions;
pub mod dfu;
pub mod list;
pub mod loglevel;
pub mod send;
pub mod set;
pub mod settings;
pub mod status;
