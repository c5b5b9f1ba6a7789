//! Attentio Protocol (AP) interface.
//!
//! The client side of the AP used to talk to AttentioLight-1 devices over
//! CDC1 (the protocol port) or the BLE GATT service.

pub mod client;
pub mod crc;
pub mod packet;
