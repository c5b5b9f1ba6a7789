//! Device discovery, identification and the transports' byte handling.

pub mod ble;
pub mod config;
pub mod connection;
pub mod discovery;
pub mod info;
