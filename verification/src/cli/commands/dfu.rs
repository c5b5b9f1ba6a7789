//! Firmware flashing over DFU: checking the application header of a firmware
//! image, deciding which device to flash, and following the flash progress.

use vstd::prelude::*;
use vstd::string::*;

use crate::device::config::ATTENTIO_VID;
use crate::device::discovery::{AttentioDevice, DeviceMode};
use crate::text::{
    contains, dec_spec, dec_string, hex_fixed_spec, hex_fixed_string, str_eq,
};
use crate::device::discovery::text_contains;

verus! {

/// Magic value in the first 4 bytes of the application header (little-endian).
pub const FIRMWARE_MAGIC: u32 = 0xDEAD_BEEF;

/// Size of the application header in bytes.
pub const HEADER_SIZE: usize = 32;

/// Offset of the firmware vector table (after header and padding).
pub const VECTOR_TABLE_OFFSET: usize = 0x100;

/// Base address of the application in flash (after the bootloader).
pub const APP_BASE_ADDRESS: u32 = 0x0800_4000;

/// Parsed firmware application header (first 32 bytes of the binary).
#[derive(Debug, Clone, Copy, PartialEq, Eq)]
pub struct FirmwareHeader {
    pub magic: u32,
    pub version: u32,
    pub size: u32,
    pub crc32: u32,
    pub vid: u16,
    pub pid: u16,
}

/// The little-endian 32-bit value at `off`.
pub open spec fn le32(d: Seq<u8>, off: int) -> u32 {
    (d[off] + 256 * d[off + 1] + 65536 * d[off + 2] + 16777216 * d[off + 3]) as u32
}

/// The little-endian 16-bit value at `off`.
pub open spec fn le16(d: Seq<u8>, off: int) -> u16 {
    (d[off] + 256 * d[off + 1]) as u16
}

/// The header the first 32 bytes of an image hold.
pub open spec fn header_spec(d: Seq<u8>) -> FirmwareHeader {
    FirmwareHeader {
        magic: le32(d, 0),
        version: le32(d, 4),
        size: le32(d, 8),
        crc32: le32(d, 12),
        vid: le16(d, 16),
        pid: le16(d, 18),
    }
}

fn read_le32(d: &[u8], off: usize) -> (v: u32)
    requires
        off + 4 <= d@.len(),
    ensures
        v == le32(d@, off as int),
{
    d[off] as u32 + 256 * (d[off + 1] as u32) + 65536 * (d[off + 2] as u32) + 16777216 * (d[off
        + 3] as u32)
}

fn read_le16(d: &[u8], off: usize) -> (v: u16)
    requires
        off + 2 <= d@.len(),
    ensures
        v == le16(d@, off as int),
{
    d[off] as u16 + 256 * (d[off + 1] as u16)
}

/// One bit step of the CRC-32 (IEEE, reflected) register.
pub open spec fn crc32_shift(c: u32) -> u32 {
    if c & 1u32 == 1u32 {
        (c >> 1u32) ^ 0xEDB8_8320u32
    } else {
        c >> 1u32
    }
}

/// `n` bit steps of the register.
pub open spec fn crc32_bits(c: u32, n: nat) -> u32
    decreases n,
{
    if n == 0 {
        c
    } else {
        crc32_bits(crc32_shift(c), (n - 1) as nat)
    }
}

/// The register after absorbing the bytes, starting from all ones.
pub open spec fn crc32_register(data: Seq<u8>) -> u32
    decreases data.len(),
{
    if data.len() == 0 {
        0xFFFF_FFFFu32
    } else {
        crc32_bits(crc32_register(data.drop_last()) ^ (data.last() as u32), 8)
    }
}

/// The CRC-32 (IEEE) of a byte sequence: the final register inverted.
pub open spec fn crc32_of(data: Seq<u8>) -> u32 {
    crc32_register(data) ^ 0xFFFF_FFFFu32
}

/// The CRC-32 of the bytes from `offset` on.
///
/// Trusted: calls `crc32fast::hash` on that slice; the contract here (not
/// proved) is what the crate documents, that it computes the CRC-32 (IEEE)
/// checksum, [`crc32_of`], of those bytes.
#[verifier::external_body]
fn crc32_from(data: &[u8], offset: usize) -> (r: u32)
    requires
        offset <= data@.len(),
    ensures
        r == crc32_of(data@.subrange(offset as int, data@.len() as int)),
{
    crc32fast::hash(&data[offset..])
}

/// The error for an image shorter than its header.
pub open spec fn too_small_message(len: nat) -> Seq<char> {
    "firmware file too small ("@ + dec_spec(len) + " bytes) \u{2014} expected at least 32 byte header"@
}

/// The error for an image whose magic is wrong.
pub open spec fn bad_magic_message(magic: u32) -> Seq<char> {
    "invalid firmware header: magic 0x"@ + hex_fixed_spec(magic as nat, 8)
        + " does not match expected 0xDEADBEEF \u{2014} is this a signed firmware binary?"@
}

/// The error for an image whose payload does not have the header's CRC.
pub open spec fn crc_mismatch_message(header: u32, computed: u32) -> Seq<char> {
    "firmware CRC32 mismatch: header says 0x"@ + hex_fixed_spec(header as nat, 8)
        + ", computed 0x"@ + hex_fixed_spec(computed as nat, 8)
        + " \u{2014} file may be corrupted"@
}

/// Whether the payload's CRC is checked: the header carries one and the
/// image extends past the vector table offset.
pub open spec fn crc_checked(h: FirmwareHeader, len: nat) -> bool {
    h.crc32 != 0 && len > VECTOR_TABLE_OFFSET
}

/// The payload's CRC is checked exactly when the header carries a nonzero CRC
/// and the image extends past the vector table offset, whatever the header's
/// size, version or ids say.
pub proof fn lemma_crc_checked(h: FirmwareHeader, len: nat)
    ensures
        crc_checked(h, len) <==> (h.crc32 != 0 && len > 0x100),
        forall|other: FirmwareHeader|
            other.crc32 == h.crc32 ==> #[trigger] crc_checked(other, len) == crc_checked(h, len),
{
}

/// The bytes of an image after the vector table offset.
pub open spec fn payload_size(file_size: nat) -> nat {
    if file_size > VECTOR_TABLE_OFFSET {
        (file_size - VECTOR_TABLE_OFFSET) as nat
    } else {
        0
    }
}

/// The warnings a header deserves, in order: a VID other than the
/// registered one, then a size of 0 or one larger than the payload plus 1 KiB.
pub open spec fn warnings_spec(h: FirmwareHeader, file_size: nat) -> Seq<Seq<char>> {
    let vid = if h.vid != ATTENTIO_VID {
        seq![
            "firmware VID 0x"@ + hex_fixed_spec(h.vid as nat, 4)
                + " does not match expected 0x1209 (pid.codes)"@,
        ]
    } else {
        Seq::empty()
    };
    let size = if h.size == 0 {
        seq!["firmware header reports size = 0 (unsigned binary?)"@]
    } else if h.size > payload_size(file_size) + 1024 {
        seq![
            "firmware header size ("@ + dec_spec(h.size as nat) + ") is larger than payload ("@
                + dec_spec(payload_size(file_size)) + " bytes) \u{2014} possible mismatch"@,
        ]
    } else {
        Seq::empty()
    };
    vid + size
}

impl FirmwareHeader {
    /// Parses the 32-byte application header at the start of the image.
    pub fn parse(data: &[u8]) -> (r: Result<FirmwareHeader, String>)
        ensures
            data@.len() >= HEADER_SIZE ==> r == Ok::<FirmwareHeader, String>(header_spec(data@)),
            data@.len() < HEADER_SIZE ==> (r matches Err(m) && m@ == too_small_message(
                data@.len(),
            )),
    {
        if data.len() < HEADER_SIZE {
            let mut m = "firmware file too small (".to_owned();
            m.append(dec_string(data.len() as u64).as_str());
            m.append(" bytes) \u{2014} expected at least 32 byte header");
            return Err(m);
        }
        Ok(
            FirmwareHeader {
                magic: read_le32(data, 0),
                version: read_le32(data, 4),
                size: read_le32(data, 8),
                crc32: read_le32(data, 12),
                vid: read_le16(data, 16),
                pid: read_le16(data, 18),
            },
        )
    }

    /// Checks the header against the image given the payload's computed CRC
    /// (`None` when it is not checked): the magic must match, then the CRC.
    pub fn validate_with_crc(&self, computed: Option<u32>) -> (r: Result<(), String>)
        ensures
            self.magic != FIRMWARE_MAGIC ==> (r matches Err(m) && m@ == bad_magic_message(
                self.magic,
            )),
            self.magic == FIRMWARE_MAGIC ==> (match computed {
                Some(c) => if c != self.crc32 {
                    r matches Err(m) && m@ == crc_mismatch_message(self.crc32, c)
                } else {
                    r is Ok
                },
                None => r is Ok,
            }),
    {
        if self.magic != FIRMWARE_MAGIC {
            let mut m = "invalid firmware header: magic 0x".to_owned();
            m.append(hex_fixed_string(self.magic as u64, 8).as_str());
            m.append(" does not match expected 0xDEADBEEF \u{2014} is this a signed firmware binary?");
            return Err(m);
        }
        match computed {
            Some(c) => {
                if c != self.crc32 {
                    let mut m = "firmware CRC32 mismatch: header says 0x".to_owned();
                    m.append(hex_fixed_string(self.crc32 as u64, 8).as_str());
                    m.append(", computed 0x");
                    m.append(hex_fixed_string(c as u64, 8).as_str());
                    m.append(" \u{2014} file may be corrupted");
                    return Err(m);
                }
                Ok(())
            },
            None => Ok(()),
        }
    }

    /// Validates the header against the image: the magic must match and,
    /// when the header carries a CRC and the image extends past the vector
    /// table, the CRC-32 of everything from the vector table on must equal it.
    pub fn validate(&self, data: &[u8]) -> (r: Result<(), String>)
        ensures
            self.magic != FIRMWARE_MAGIC ==> (r matches Err(m) && m@ == bad_magic_message(
                self.magic,
            )),
            self.magic == FIRMWARE_MAGIC ==> (if crc_checked(*self, data@.len()) {
                let c = crc32_of(data@.subrange(VECTOR_TABLE_OFFSET as int, data@.len() as int));
                if c != self.crc32 {
                    r matches Err(m) && m@ == crc_mismatch_message(self.crc32, c)
                } else {
                    r is Ok
                }
            } else {
                r is Ok
            }),
            self.magic == FIRMWARE_MAGIC && self.crc32 != 0 && data@.len() > VECTOR_TABLE_OFFSET
                && crc32_of(data@.subrange(VECTOR_TABLE_OFFSET as int, data@.len() as int))
                != self.crc32 ==> r is Err,
            self.magic == FIRMWARE_MAGIC && (self.crc32 == 0 || data@.len() <= VECTOR_TABLE_OFFSET)
                ==> r is Ok,
    {
        let computed = if self.crc32 != 0 && data.len() > VECTOR_TABLE_OFFSET {
            Some(crc32_from(data, VECTOR_TABLE_OFFSET))
        } else {
            None
        };
        self.validate_with_crc(computed)
    }

    /// The warnings a header deserves: a VID other than the registered
    /// one, a size of 0, or a size larger than the payload plus 1 KiB.
    pub fn warnings(&self, file_size: usize) -> (w: Vec<String>)
        ensures
            w@.map_values(|m: String| m@) == warnings_spec(*self, file_size as nat),
    {
        let ghost spec = warnings_spec(*self, file_size as nat);
        let mut w: Vec<String> = Vec::new();
        if self.vid != ATTENTIO_VID {
            let mut m = "firmware VID 0x".to_owned();
            m.append(hex_fixed_string(self.vid as u64, 4).as_str());
            m.append(" does not match expected 0x1209 (pid.codes)");
            w.push(m);
        }
        let ghost vid_part = w@.map_values(|m: String| m@);
        let payload: usize = if file_size > VECTOR_TABLE_OFFSET {
            file_size - VECTOR_TABLE_OFFSET
        } else {
            0
        };
        assert(payload == payload_size(file_size as nat));
        if self.size == 0 {
            w.push("firmware header reports size = 0 (unsigned binary?)".to_owned());
        } else if self.size as u128 > payload as u128 + 1024 {
            let mut m = "firmware header size (".to_owned();
            m.append(dec_string(self.size as u64).as_str());
            m.append(") is larger than payload (");
            m.append(dec_string(payload as u64).as_str());
            m.append(" bytes) \u{2014} possible mismatch");
            w.push(m);
        }
        proof {
            let size_part = if self.size == 0 {
                seq!["firmware header reports size = 0 (unsigned binary?)"@]
            } else if self.size > payload_size(file_size as nat) + 1024 {
                seq![
                    "firmware header size ("@ + dec_spec(self.size as nat) + ") is larger than payload ("@
                        + dec_spec(payload_size(file_size as nat)) + " bytes) \u{2014} possible mismatch"@,
                ]
            } else {
                Seq::<Seq<char>>::empty()
            };
            assert(w@.map_values(|m: String| m@) =~= vid_part + size_part);
            assert(vid_part + size_part =~= spec);
        }
        w
    }
}

// ── Choosing the device ──────────────────────────────────────────────────────

/// Some device is in `mode` and, when a serial is given, has that serial.
pub open spec fn in_mode_spec(devices: Seq<AttentioDevice>, mode: DeviceMode, serial: Option<Seq<char>>) -> bool {
    exists|k: int|
        0 <= k < devices.len() && (#[trigger] devices[k]).mode == mode && (match serial {
            Some(s) => devices[k].serial@ == s,
            None => true,
        })
}

/// Whether some device is in `mode` (with the given serial, if one is given).
pub fn device_in_mode(devices: &[AttentioDevice], mode: DeviceMode, serial: Option<&str>) -> (r: bool)
    ensures
        r == in_mode_spec(
            devices@,
            mode,
            match serial {
                Some(s) => Some(s@),
                None => None,
            },
        ),
{
    let ghost sv = match serial {
        Some(s) => Some(s@),
        None => None::<Seq<char>>,
    };
    let mut k: usize = 0;
    while k < devices.len()
        invariant
            k <= devices@.len(),
            sv == (match serial {
                Some(s) => Some(s@),
                None => None::<Seq<char>>,
            }),
            forall|j: int|
                0 <= j < k ==> !((#[trigger] devices@[j]).mode == mode && (match sv {
                    Some(s) => devices@[j].serial@ == s,
                    None => true,
                })),
        decreases devices@.len() - k,
    {
        let d = &devices[k];
        if d.mode == mode {
            let ok = match serial {
                Some(s) => str_eq(d.serial.as_str(), s),
                None => true,
            };
            if ok {
                return true;
            }
        }
        k = k + 1;
    }
    false
}

/// The serial the flash is aimed at: the one asked for, else the serial of
/// the only device when there is exactly one with a known serial.
pub fn flash_target_serial(devices: &[AttentioDevice], device: Option<&str>) -> (r: Option<String>)
    ensures
        match device {
            Some(s) => r matches Some(t) && t@ == s@,
            None => if devices@.len() == 1 && devices@[0].serial@ != "unknown"@ {
                r matches Some(t) && t@ == devices@[0].serial@
            } else {
                r is None
            },
        },
{
    match device {
        Some(s) => Some(s.to_owned()),
        None => {
            if devices.len() == 1 && !str_eq(devices[0].serial.as_str(), "unknown") {
                Some(devices[0].serial.clone())
            } else {
                None
            }
        },
    }
}

/// How the mode is named in messages.
pub fn mode_label(mode: DeviceMode) -> (r: &'static str)
    ensures
        r@ == (match mode {
            DeviceMode::Bootloader => "bootloader"@,
            DeviceMode::Normal => "normal"@,
            DeviceMode::Unknown => "unknown"@,
        }),
{
    match mode {
        DeviceMode::Bootloader => "bootloader",
        DeviceMode::Normal => "normal",
        DeviceMode::Unknown => "unknown",
    }
}

/// Refuses to send a device that is already in bootloader mode into it.
pub fn check_can_enter_dfu(d: &AttentioDevice) -> (r: Result<(), String>)
    ensures
        d.mode == DeviceMode::Bootloader ==> (r matches Err(m) && m@ == "device '"@ + d.serial@
            + "' is already in bootloader mode \u{2014} no need to enter DFU"@),
        d.mode != DeviceMode::Bootloader ==> r is Ok,
{
    if d.mode == DeviceMode::Bootloader {
        let mut m = "device '".to_owned();
        m.append(d.serial.as_str());
        m.append("' is already in bootloader mode \u{2014} no need to enter DFU");
        return Err(m);
    }
    Ok(())
}

/// A failed write of DFU_ENTER that just means the device rebooted first.
pub fn is_reboot_write_error(message: &str) -> (r: bool)
    ensures
        r == (text_contains(message@, "Broken pipe"@) || text_contains(message@, "connection"@)),
{
    contains(message, "Broken pipe") || contains(message, "connection")
}

/// A failed download that is the device dropping off the bus as it reboots
/// after manifestation.
pub fn is_expected_usb_drop(message: &str) -> (r: bool)
    ensures
        r == (text_contains(message@, "Input/Output Error"@) || text_contains(message@, "Pipe"@)
            || text_contains(message@, "No such device"@) || text_contains(
            message@,
            "Not found"@,
        )),
{
    contains(message, "Input/Output Error") || contains(message, "Pipe") || contains(
        message,
        "No such device",
    ) || contains(message, "Not found")
}

/// A failed flash from a device stuck in a bad DFU state, worth a USB reset
/// and one retry.
pub fn is_invalid_state(message: &str) -> (r: bool)
    ensures
        r == text_contains(message@, "invalid state"@),
{
    contains(message, "invalid state")
}

// ── Flash progress ───────────────────────────────────────────────────────────

/// What the progress display must show after a progress report.
#[derive(Debug, Clone, Copy, PartialEq, Eq)]
pub struct ProgressUpdate {
    /// This is the first report: the erase phase is over and writing starts.
    pub erase_just_finished: bool,
    /// Bytes written so far.
    pub position: usize,
    /// All of the firmware has been written.
    pub write_done: bool,
}

/// Progress of a DFU download: the first report ends the erase phase, later
/// ones add the bytes written.
pub struct FlashProgress {
    pub erase_finished: bool,
    pub total_written: usize,
    pub firmware_len: usize,
}

impl FlashProgress {
    /// Progress before anything was erased or written.
    pub fn new(firmware_len: usize) -> (p: Self)
        ensures
            !p.erase_finished,
            p.total_written == 0,
            p.firmware_len == firmware_len,
    {
        FlashProgress { erase_finished: false, total_written: 0, firmware_len }
    }

    /// Takes a report of `bytes_written` more bytes.
    pub fn on_progress(&mut self, bytes_written: usize) -> (u: ProgressUpdate)
        requires
            old(self).total_written + bytes_written <= usize::MAX,
        ensures
            final(self).erase_finished,
            final(self).total_written == old(self).total_written + bytes_written,
            final(self).firmware_len == old(self).firmware_len,
            u.erase_just_finished == !old(self).erase_finished,
            u.position == final(self).total_written,
            u.write_done == (final(self).total_written >= final(self).firmware_len),
    {
        let first = !self.erase_finished;
        self.erase_finished = true;
        self.total_written = self.total_written + bytes_written;
        ProgressUpdate {
            erase_just_finished: first,
            position: self.total_written,
            write_done: self.total_written >= self.firmware_len,
        }
    }
}

} // verus!
