//! Encoding of UVC extension-unit control transfers (GET_CUR / SET_CUR)
//! addressed to the PureThermal's Video Control interface.

use vstd::prelude::*;

verus! {

/// PureThermal USB Vendor ID.
pub const PT_VID: u16 = 0x1e4e;
/// PureThermal USB Product ID.
pub const PT_PID: u16 = 0x0100;

/// UVC SET_CUR request code (host-to-device).
pub const UVC_SET_CUR: u8 = 0x01;
/// UVC GET_CUR request code (device-to-host).
pub const UVC_GET_CUR: u8 = 0x81;
/// UVC Video Control interface number (always 0 for PureThermal).
pub const UVC_VC_INTERFACE: u16 = 0;

/// Direction bit of bmRequestType: device-to-host.
pub const REQUEST_DIR_IN: u8 = 0x80;
/// Direction bit of bmRequestType: host-to-device.
pub const REQUEST_DIR_OUT: u8 = 0x00;
/// Type field of bmRequestType: class request.
pub const REQUEST_TYPE_CLASS: u8 = 0x20;
/// Recipient field of bmRequestType: interface.
pub const REQUEST_RECIPIENT_INTERFACE: u8 = 0x01;
/// Timeout of a control transfer, in milliseconds.
pub const CONTROL_TIMEOUT_MS: u64 = 500;

/// Whether a USB device is a PureThermal board.
pub fn is_purethermal(vendor_id: u16, product_id: u16) -> (b: bool)
    ensures
        b == (vendor_id == PT_VID && product_id == PT_PID),
{
    vendor_id == PT_VID && product_id == PT_PID
}

/// wValue of an extension-unit request: the control selector in the high byte.
pub fn control_wvalue(control_id: u8) -> (v: u16)
    ensures
        v == control_id * 256,
        v / 256 == control_id && v % 256 == 0,
{
    let v = (control_id as u16) << 8;
    assert(((control_id as u16) << 8) == control_id * 256) by (bit_vector);
    v
}

/// wIndex of an extension-unit request: the unit ID in the high byte and
/// the Video Control interface number in the low byte.
pub fn control_windex(unit_id: u8) -> (v: u16)
    ensures
        v == unit_id * 256 + UVC_VC_INTERFACE,
{
    let v = (unit_id as u16) << 8 | UVC_VC_INTERFACE;
    assert(((unit_id as u16) << 8 | 0u16) == unit_id * 256) by (bit_vector);
    v
}

/// bmRequestType of a GET_CUR: device-to-host, class, interface (0xA1).
pub fn get_request_type() -> (t: u8)
    ensures
        t == 0xA1,
{
    let t = REQUEST_DIR_IN | REQUEST_TYPE_CLASS | REQUEST_RECIPIENT_INTERFACE;
    assert(0x80u8 | 0x20u8 | 0x01u8 == 0xA1u8) by (bit_vector);
    t
}

/// bmRequestType of a SET_CUR: host-to-device, class, interface (0x21).
pub fn set_request_type() -> (t: u8)
    ensures
        t == 0x21,
{
    let t = REQUEST_DIR_OUT | REQUEST_TYPE_CLASS | REQUEST_RECIPIENT_INTERFACE;
    assert(0x00u8 | 0x20u8 | 0x01u8 == 0x21u8) by (bit_vector);
    t
}

} // verus!
