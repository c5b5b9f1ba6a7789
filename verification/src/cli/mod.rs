//! The command line: its subcommands and the logic behind them.

pub mod commands;

use vstd::prelude::*;
use vstd::string::*;

verus! {

/// CLI tool for device management.
#[derive(Debug, Clone)]
pub struct Cli {
    /// Target device by serial number or index from 'attentio list'.
    pub device: Option<String>,
    /// Connect over BLE instead of USB (`--ble`, optionally `--ble=<name|MAC|N>`).
    pub ble: Option<String>,
    /// Output results as JSON for scripting.
    pub json: bool,
    /// Enable verbose/debug output.
    pub verbose: bool,
    /// The subcommand.
    pub command: Command,
}

/// The subcommands.
#[derive(Debug, Clone)]
pub enum Command {
    /// List connected device(s).
    List,
    /// Launch monitor to view CDC serial print stream.
    Monitor { device: Option<String> },
    /// Flash firmware via DFU.
    Dfu { firmware: String, device: Option<String> },
    /// Enter DFU bootloader mode on the device.
    DfuEnter { device: Option<String> },
    /// Query device metadata.
    Metadata { action: Option<MetadataAction> },
    /// Manage device settings.
    Settings { action: Option<SettingsAction> },
    /// Claim control of the device (enter remote mode).
    Claim,
    /// Release control of the device (return to standalone mode).
    Release,
    /// Ping the device.
    Ping,
    /// Query device status.
    Status,
    /// Set LED color, brightness, or turn LEDs off (`attentio set`).
    SetLed { action: SetAction },
    /// Control device power.
    Power { action: PowerAction },
    /// Get or set the runtime log level (ephemeral, lost on reboot).
    Loglevel { action: LoglevelAction },
    /// Manage BLE pairing (host bond) for a device.
    Ble { action: BleAction },
    /// Print CLI version information.
    Version,
}

/// Subcommands for `attentio ble`.
#[derive(Debug, Clone)]
pub enum BleAction {
    /// Pair (bond) with a BLE device.
    Pair { target: Option<String> },
    /// Unpair (remove the host bond) from a BLE device.
    Unpair { target: Option<String> },
}

/// Subcommands for `attentio metadata`.
#[derive(Debug, Clone)]
pub enum MetadataAction {
    /// List all metadata fields (default when no subcommand given).
    List,
    /// Get the value of a single metadata field.
    Get { key: String },
}

/// Subcommands for `attentio settings`.
#[derive(Debug, Clone)]
pub enum SettingsAction {
    /// List all settings with their current values.
    List,
    /// Get the value of a single setting.
    Get { key: String },
    /// Set the value of a setting (`attentio settings set`).
    SetValue { key: String, value: String },
    /// Save all settings to a JSON file.
    Save { file: String },
    /// Load settings from a JSON file and apply them to the device.
    Load { file: String },
}

/// Subcommands for `attentio set`.
#[derive(Debug, Clone, Copy, PartialEq, Eq)]
pub enum SetAction {
    /// Set LED color using RGB values (0-255 each).
    Rgb { r: u8, g: u8, b: u8 },
    /// Set LED color using HSV values.
    Hsv { h: u16, s: u8, v: u8 },
    /// Set LED brightness (0-100%).
    Brightness { value: u8 },
    /// Turn LEDs off.
    Off,
}

/// Subcommands for `attentio power`.
#[derive(Debug, Clone, Copy, PartialEq, Eq)]
pub enum PowerAction {
    /// Power on (wake from low-power mode).
    On,
    /// Power off (enter low-power mode).
    Off,
}

/// Subcommands for `attentio loglevel`.
#[derive(Debug, Clone, Copy, PartialEq, Eq)]
pub enum LoglevelAction {
    /// Get the current runtime log level.
    Get,
    /// Set the runtime log level (0-4). Lost on reboot (`attentio loglevel set`).
    SetLevel { level: u8 },
}

/// The name of a subcommand that has no BLE equivalent (DFU works through
/// USB enumeration), if `cmd` is one.
pub fn unsupported_over_ble(cmd: &Command) -> (r: Option<&'static str>)
    ensures
        match *cmd {
            Command::Dfu { .. } => r matches Some(n) && n@ == "dfu"@,
            Command::DfuEnter { .. } => r matches Some(n) && n@ == "dfu-enter"@,
            _ => r is None,
        },
{
    match cmd {
        Command::Dfu { .. } => Some("dfu"),
        Command::DfuEnter { .. } => Some("dfu-enter"),
        _ => None,
    }
}

/// The error for a subcommand asked for over BLE that needs USB.
pub fn ble_unsupported_message(name: &str) -> (m: String)
    ensures
        m@ == "`"@ + name@ + "` is not supported over BLE; use USB"@,
{
    let mut m = "`".to_owned();
    m.append(name);
    m.append("` is not supported over BLE; use USB");
    m
}

/// The device a subcommand targets: its own `--device` over the global one.
pub fn target_device<'a>(own: Option<&'a str>, global: Option<&'a str>) -> (r: Option<&'a str>)
    ensures
        r == (match own {
            Some(d) => Some(d),
            None => global,
        }),
{
    match own {
        Some(d) => Some(d),
        None => global,
    }
}

/// The log filter: everything from this tool and the BLE stack when
/// verbose, else warnings only.
pub fn log_filter(verbose: bool) -> (r: &'static str)
    ensures
        verbose ==> r@ == "attentio=trace,btleplug=debug,bluez_async=debug"@,
        !verbose ==> r@ == "attentio=warn"@,
{
    if verbose {
        "attentio=trace,btleplug=debug,bluez_async=debug"
    } else {
        "attentio=warn"
    }
}

} // verus!
