//! Verified core of a FLIR Lepton / PureThermal thermal camera viewer:
//! UVC descriptor and payload parsing, frame reassembly, Lepton SDK
//! command encoding and the Y16 image processing pipeline.

pub mod text;
pub mod uvc_payload;
pub mod uvc_descriptors;
pub mod processing;
pub mod camera;
pub mod usb_control;
pub mod usb_stream;
pub mod avfoundation;
pub mod frame_event;
