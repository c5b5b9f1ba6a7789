//! USB identification of Attentio devices.
//!
//! Centralizes the USB VID/PID and product string identifiers.

use vstd::prelude::*;

verus! {

/// USB Vendor ID for Attentio devices (pid.codes open-source VID 0x1209).
pub const ATTENTIO_VID: u16 = 0x1209;

/// USB Product ID for Attentio devices (AttentioLight-1).
pub const ATTENTIO_PID: u16 = 0xEEA1;

/// STM32 DFU fallback VID (STMicroelectronics), used by the bootloader when
/// no valid application header is present (blank/erased board).
pub const STM_DFU_VID: u16 = 0x0483;

/// STM32 DFU fallback PID.
pub const STM_DFU_PID: u16 = 0xDF11;

/// Whether a USB device has the Attentio product VID/PID (pid.codes).
pub fn is_attentio_device(vendor_id: u16, product_id: u16) -> (r: bool)
    ensures
        r == (vendor_id == ATTENTIO_VID && product_id == ATTENTIO_PID),
{
    vendor_id == ATTENTIO_VID && product_id == ATTENTIO_PID
}

/// Whether a USB device has the STM32 DFU fallback VID/PID (blank boards).
pub fn is_stm_dfu_device(vendor_id: u16, product_id: u16) -> (r: bool)
    ensures
        r == (vendor_id == STM_DFU_VID && product_id == STM_DFU_PID),
{
    vendor_id == STM_DFU_VID && product_id == STM_DFU_PID
}

/// Whether a USB device is any known Attentio-related device: a product with
/// the pid.codes VID/PID, or a blank board in STM32 DFU fallback mode.
pub open spec fn is_known_spec(vendor_id: u16, product_id: u16) -> bool {
    (vendor_id == ATTENTIO_VID && product_id == ATTENTIO_PID) || (vendor_id == STM_DFU_VID
        && product_id == STM_DFU_PID)
}

/// Whether a USB device is any known Attentio-related device.
pub fn is_known_device(vendor_id: u16, product_id: u16) -> (r: bool)
    ensures
        r == is_known_spec(vendor_id, product_id),
{
    is_attentio_device(vendor_id, product_id) || is_stm_dfu_device(vendor_id, product_id)
}

} // verus!
