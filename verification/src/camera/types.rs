//! Camera identifiers, device information, connection state and errors.

use vstd::prelude::*;

use crate::text::{decimal, push_decimal};

verus! {

/// PureThermal USB Vendor ID.
pub const PT_VID: u16 = 0x1e4e;
/// PureThermal USB Product ID.
pub const PT_PID: u16 = 0x0100;

/// UVC frame format identifiers (matches libuvc enum).
#[derive(Debug, Clone, Copy, PartialEq, Eq, Structural)]
pub enum UvcFrameFormat {
    /// UVC_FRAME_FORMAT_Y16
    Y16,
    /// UVC_FRAME_FORMAT_RGB
    Rgb,
    /// UVC_FRAME_FORMAT_GRAY8
    Gray8,
}

impl UvcFrameFormat {
    /// The libuvc enumeration value of the format.
    pub fn code(&self) -> (c: u32)
        ensures
            c == match self {
                UvcFrameFormat::Y16 => 13u32,
                UvcFrameFormat::Rgb => 7u32,
                UvcFrameFormat::Gray8 => 11u32,
            },
    {
        match self {
            UvcFrameFormat::Y16 => 13,
            UvcFrameFormat::Rgb => 7,
            UvcFrameFormat::Gray8 => 11,
        }
    }
}

/// Camera device information.
#[derive(Debug, Clone)]
pub struct DeviceInfo {
    pub serial_number: String,
    pub part_number: String,
    pub firmware_version: String,
    pub supports_radiometry: bool,
    pub supports_hw_pseudo_color: bool,
    pub width: u32,
    pub height: u32,
    pub fps: u32,
}

/// Camera connection state.
#[derive(Debug, Clone)]
pub enum ConnectionState {
    Disconnected,
    Connecting,
    Connected,
    Streaming,
    Error(String),
}

/// Errors of camera discovery, streaming and Lepton control.
#[derive(Debug)]
pub enum CameraError {
    DeviceNotFound,
    OpenFailed(String),
    StreamFailed(String),
    LeptonError(String),
    UvcError(String),
}

/// The human-readable message of an error.
pub open spec fn error_message(e: CameraError) -> Seq<char> {
    match e {
        CameraError::DeviceNotFound => "No PureThermal device found"@,
        CameraError::OpenFailed(s) => "Failed to open device: "@ + s@,
        CameraError::StreamFailed(s) => "Failed to start stream: "@ + s@,
        CameraError::LeptonError(s) => "Lepton SDK error: "@ + s@,
        CameraError::UvcError(s) => "UVC error: "@ + s@,
    }
}

impl CameraError {
    /// The human-readable message of the error.
    pub fn message(&self) -> (m: String)
        ensures
            m@ == error_message(*self),
    {
        match self {
            CameraError::DeviceNotFound => String::from_str("No PureThermal device found"),
            CameraError::OpenFailed(s) => String::from_str("Failed to open device: ").concat(s.as_str()),
            CameraError::StreamFailed(s) => String::from_str("Failed to start stream: ").concat(s.as_str()),
            CameraError::LeptonError(s) => String::from_str("Lepton SDK error: ").concat(s.as_str()),
            CameraError::UvcError(s) => String::from_str("UVC error: ").concat(s.as_str()),
        }
    }
}

/// Device information for a Lepton with the given part number, serial
/// number and radiometry support. Pseudo-colour is always available on
/// the PureThermal; firmware version and video geometry are not reported.
pub fn device_info(part_number: String, serial: u64, supports_radiometry: bool) -> (d: DeviceInfo)
    ensures
        d.serial_number@ == decimal(serial as nat),
        d.part_number == part_number,
        d.firmware_version@ == Seq::<char>::empty(),
        d.supports_radiometry == supports_radiometry,
        d.supports_hw_pseudo_color,
        d.width == 0 && d.height == 0 && d.fps == 0,
{
    let mut serial_number = String::new();
    push_decimal(&mut serial_number, serial);
    assert(serial_number@ =~= decimal(serial as nat));
    DeviceInfo {
        serial_number,
        part_number,
        firmware_version: String::new(),
        supports_radiometry,
        supports_hw_pseudo_color: true,
        width: 0,
        height: 0,
        fps: 0,
    }
}

} // verus!
