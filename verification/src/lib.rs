//! Host-side library for AttentioLight-1 devices: the Attentio Protocol (AP)
//! framing and client logic, device discovery, and the state of the monitor
//! dashboard, with their behaviour stated as contracts and proved by Verus.

pub mod cli;
pub mod device;
pub mod error;
pub mod monitor;
pub mod protocol;
pub mod sorting;
pub mod text;
pub mod tui;
