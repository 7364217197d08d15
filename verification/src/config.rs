//! Descriptor identity and configuration constants of the rebootor device.

use vstd::prelude::*;

verus! {

/// USB vendor identifier in the device descriptor.
pub const VENDOR_ID: u16 = 0x16C0;

/// USB product identifier in the device descriptor.
pub const PRODUCT_ID: u16 = 0x0477;

/// Largest packet the control endpoint accepts, in bytes.
pub const MAX_PACKET_SIZE: u8 = 64;

/// Poll interval the HID class suggests to the host, in the HID class's
/// native time units.
pub const POLL_INTERVAL: u8 = 10;

/// The product string of the device descriptor.
pub fn product_string() -> (r: &'static str)
    ensures
        r@ == "Self-Rebootor"@,
{
    "Self-Rebootor"
}

/// The manufacturer string of the device descriptor.
pub fn manufacturer_string() -> (r: &'static str)
    ensures
        r@ == "PJRC"@,
{
    "PJRC"
}

} // verus!
