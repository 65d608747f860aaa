use thermal_v2_lib::camera::types::{device_info, CameraError, UvcFrameFormat, PT_PID, PT_VID};
use thermal_v2_lib::frame_event::{frame_event, palette_from_name};
use thermal_v2_lib::processing::palettes::Palette;
use thermal_v2_lib::processing::process_frame;
use thermal_v2_lib::text::{push_decimal, push_hex4, push_signed_decimal, text_equals};
use thermal_v2_lib::usb_stream::{
    get_ctrl_outcome, isoch_buffer_size, probe_for_config, set_ctrl_outcome, UvcProbeControl,
};
use thermal_v2_lib::uvc_descriptors::UvcStreamConfig;

fn lepton_config() -> UvcStreamConfig {
    UvcStreamConfig {
        vs_interface_num: 1,
        format_index: 2,
        frame_index: 1,
        width: 160,
        height: 120,
        frame_interval: 370370,
        alt_setting: 1,
        endpoint_addr: 0x81,
        max_packet_size: 956,
        bits_per_pixel: 16,
    }
}

#[test]
fn probe_request_for_config() {
    let p = probe_for_config(&lepton_config());
    assert_eq!(p.bm_hint, 1);
    assert_eq!(p.b_format_index, 2);
    assert_eq!(p.b_frame_index, 1);
    assert_eq!(p.dw_frame_interval, 370370);
    assert_eq!(p.dw_max_video_frame_size, 160 * 120 * 2);
    assert_eq!(p.dw_max_payload_transfer_size, 0);
}

#[test]
fn probe_wire_image_round_trips() {
    let p = probe_for_config(&lepton_config());
    let b = p.to_bytes();
    assert_eq!(b.len(), 26);
    assert_eq!(&b[0..8], &[0x01, 0x00, 0x02, 0x01, 0xC2, 0xA6, 0x05, 0x00]);
    assert_eq!(&b[18..22], &(160u32 * 120 * 2).to_le_bytes());
    assert_eq!(UvcProbeControl::from_bytes(&b), p);
    let raw: Vec<u8> = (0..26).map(|i| (i * 7 + 3) as u8).collect();
    assert_eq!(UvcProbeControl::from_bytes(&raw).to_bytes(), raw);
}

#[test]
fn transfer_buffer_size() {
    assert_eq!(isoch_buffer_size(956), 956 * 64);
    assert_eq!(isoch_buffer_size(0x1400), 3072 * 64);
}

#[test]
fn ctrl_outcomes() {
    assert_eq!(get_ctrl_outcome(2, 3, 1).unwrap(), 2);
    match get_ctrl_outcome(-9, 3, 19) {
        Err(CameraError::LeptonError(m)) => assert_eq!(m, "GET_CUR failed (unit=3, ctrl=19): code -9"),
        other => panic!("unexpected {:?}", other),
    }
    assert!(set_ctrl_outcome(0, 6, 17).is_ok());
    match set_ctrl_outcome(-2147483648, 255, 64) {
        Err(CameraError::LeptonError(m)) => {
            assert_eq!(m, "SET_CUR failed (unit=255, ctrl=64): code -2147483648")
        }
        other => panic!("unexpected {:?}", other),
    }
}

#[test]
fn error_messages() {
    assert_eq!(CameraError::DeviceNotFound.message(), "No PureThermal device found");
    assert_eq!(CameraError::OpenFailed("busy".to_string()).message(), "Failed to open device: busy");
    assert_eq!(CameraError::StreamFailed("x".to_string()).message(), "Failed to start stream: x");
    assert_eq!(CameraError::LeptonError("y".to_string()).message(), "Lepton SDK error: y");
    assert_eq!(CameraError::UvcError("z".to_string()).message(), "UVC error: z");
}

#[test]
fn device_info_fields() {
    let d = device_info("500-0771-01".to_string(), 123456789012, true);
    assert_eq!(d.serial_number, "123456789012");
    assert_eq!(d.part_number, "500-0771-01");
    assert_eq!(d.firmware_version, "");
    assert!(d.supports_radiometry);
    assert!(d.supports_hw_pseudo_color);
    assert_eq!((d.width, d.height, d.fps), (0, 0, 0));
    assert_eq!(device_info(String::new(), 0, false).serial_number, "0");
}

#[test]
fn frame_format_codes_and_ids() {
    assert_eq!(UvcFrameFormat::Y16.code(), 13);
    assert_eq!(UvcFrameFormat::Rgb.code(), 7);
    assert_eq!(UvcFrameFormat::Gray8.code(), 11);
    assert_eq!((PT_VID, PT_PID), (0x1e4e, 0x0100));
}

#[test]
fn frame_event_encodes_pixels() {
    let frame: Vec<u8> = [0u16, 300].iter().flat_map(|v| v.to_le_bytes()).collect();
    let result = process_frame(&frame, 2, 1, Palette::Grayscale, false, 0, None);
    let e = frame_event(&result);
    // RGBA 00 00 00 FF FF FF FF FF
    assert_eq!(e.data, "AAAA//////8=");
    assert_eq!((e.width, e.height, e.min_val, e.max_val), (2, 1, 0, 300));
}

#[test]
fn frame_event_pads_partial_groups() {
    let frame: Vec<u8> = [5u16].iter().flat_map(|v| v.to_le_bytes()).collect();
    let result = process_frame(&frame, 1, 1, Palette::Grayscale, false, 0, None);
    // RGBA 00 00 00 FF
    assert_eq!(frame_event(&result).data, "AAAA/w==");
}

#[test]
fn palettes_by_name() {
    assert_eq!(palette_from_name("ironblack").unwrap(), Palette::IronBlack);
    assert_eq!(palette_from_name("rainbow").unwrap(), Palette::Rainbow);
    assert_eq!(palette_from_name("grayscale").unwrap(), Palette::Grayscale);
    assert_eq!(palette_from_name("sepia").unwrap_err(), "Unknown palette: sepia");
    assert_eq!(palette_from_name("Rainbow").unwrap_err(), "Unknown palette: Rainbow");
}

#[test]
fn number_rendering() {
    let mut s = String::new();
    push_decimal(&mut s, 0);
    s.push(' ');
    push_decimal(&mut s, u64::MAX);
    s.push(' ');
    push_signed_decimal(&mut s, i64::MIN);
    s.push(' ');
    push_hex4(&mut s, 0x0ab1);
    assert_eq!(s, "0 18446744073709551615 -9223372036854775808 0AB1");
    assert!(text_equals("abc", "abc"));
    assert!(!text_equals("abc", "abd"));
    assert!(!text_equals("ab", "abc"));
}
