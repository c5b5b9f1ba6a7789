[package]
name = "attentio"
version = "0.1.0"
edition = "2021"
publish = false

[dependencies]
anyhow = "1"
btleplug = "0.11"
clap = { version = "4", features = ["derive"] }
crc32fast = "1"
crossterm = "0.28"
dfu-libusb = "0.5"
futures-util = "0.3"
indicatif = "0.17"
libc = "0.2"
ratatui = "0.29"
rusb = "0.9"
serde = { version = "1", features = ["derive"] }
serde_json = "1"
serialport = "4"
thiserror = "2"
tokio = { version = "1", features = ["full"] }
tokio-serial = "5"
tracing = "0.1"
tracing-subscriber = { version = "0.3", features = ["env-filter"] }
uuid = "1"
