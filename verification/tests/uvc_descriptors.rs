use thermal_v2_lib::uvc_descriptors::{
    parse_uvc_config, UvcStreamConfig, VS_FORMAT_UNCOMPRESSED, VS_FRAME_UNCOMPRESSED, Y16_GUID,
};

/// Build a minimal USB configuration descriptor containing:
/// - Configuration descriptor header
/// - VideoControl interface 0 (class 0x0E, subclass 0x01)
/// - VideoStreaming interface 1, alt 0 (class 0x0E, subclass 0x02)
/// - CS_INTERFACE: VS_FORMAT_UNCOMPRESSED with Y16 GUID, format index 2
/// - CS_INTERFACE: VS_FRAME_UNCOMPRESSED 160x120, frame interval 370370
/// - VideoStreaming interface 1, alt 1 (class 0x0E, subclass 0x02)
/// - Endpoint 0x81, isochronous IN, max packet size 956
fn make_test_descriptor() -> Vec<u8> {
    let mut desc = Vec::new();

    // --- Configuration descriptor (9 bytes) ---
    let config_start = desc.len();
    desc.extend_from_slice(&[
        9,    // bLength
        0x02, // bDescriptorType = Configuration
        0, 0, // wTotalLength (placeholder)
        2,    // bNumInterfaces
        1,    // bConfigurationValue
        0,    // iConfiguration
        0x80, // bmAttributes (bus powered)
        250,  // bMaxPower (500 mA)
    ]);

    // --- Interface descriptor: VideoControl (iface 0, alt 0) ---
    desc.extend_from_slice(&[9, 0x04, 0, 0, 0, 0x0E, 0x01, 0x00, 0]);

    // --- Interface descriptor: VideoStreaming (iface 1, alt 0) ---
    desc.extend_from_slice(&[9, 0x04, 1, 0, 0, 0x0E, 0x02, 0x00, 0]);

    // --- CS_INTERFACE: VS_FORMAT_UNCOMPRESSED (27 bytes) ---
    let format_desc_len: u8 = 27;
    desc.push(format_desc_len); // bLength
    desc.push(0x24); // bDescriptorType = CS_INTERFACE
    desc.push(VS_FORMAT_UNCOMPRESSED); // bDescriptorSubtype
    desc.push(2); // bFormatIndex
    desc.push(1); // bNumFrameDescriptors
    desc.extend_from_slice(&Y16_GUID); // guidFormat
    desc.push(16); // bBitsPerPixel
    desc.push(1); // bDefaultFrameIndex
    desc.push(0); // bAspectRatioX
    desc.push(0); // bAspectRatioY
    desc.push(0); // bmInterlaceFlags
    desc.push(0); // bCopyProtect

    // --- CS_INTERFACE: VS_FRAME_UNCOMPRESSED (30 bytes) ---
    let frame_desc_len: u8 = 30;
    desc.push(frame_desc_len); // bLength
    desc.push(0x24); // bDescriptorType = CS_INTERFACE
    desc.push(VS_FRAME_UNCOMPRESSED); // bDescriptorSubtype
    desc.push(1); // bFrameIndex
    desc.push(0); // bmCapabilities
    desc.push(160u16 as u8); // wWidth
    desc.push((160u16 >> 8) as u8);
    desc.push(120u16 as u8); // wHeight
    desc.push((120u16 >> 8) as u8);
    desc.extend_from_slice(&0u32.to_le_bytes()); // dwMinBitRate
    desc.extend_from_slice(&0u32.to_le_bytes()); // dwMaxBitRate
    desc.extend_from_slice(&0u32.to_le_bytes()); // dwMaxVideoFrameBufferSize
    desc.extend_from_slice(&370370u32.to_le_bytes()); // dwDefaultFrameInterval
    desc.push(1); // bFrameIntervalType
    desc.extend_from_slice(&370370u32.to_le_bytes()); // dwFrameInterval[0]

    // --- Interface descriptor: VideoStreaming (iface 1, alt 1) ---
    desc.extend_from_slice(&[9, 0x04, 1, 1, 1, 0x0E, 0x02, 0x00, 0]);

    // --- Endpoint descriptor: 0x81, isochronous IN, maxPacketSize 956 ---
    desc.extend_from_slice(&[7, 0x05, 0x81, 0x05]);
    desc.push(956u16 as u8);
    desc.push((956u16 >> 8) as u8);
    desc.push(1); // bInterval

    // Patch wTotalLength
    let total_len = desc.len() as u16;
    desc[config_start + 2] = total_len as u8;
    desc[config_start + 3] = (total_len >> 8) as u8;

    desc
}

#[test]
fn parse_finds_y16_format() {
    let desc = make_test_descriptor();
    let config = parse_uvc_config(&desc).expect("should parse Y16 format");
    assert_eq!(config.format_index, 2);
    assert_eq!(config.bits_per_pixel, 16);
}

#[test]
fn parse_finds_frame_dimensions() {
    let desc = make_test_descriptor();
    let config = parse_uvc_config(&desc).expect("should parse frame dimensions");
    assert_eq!(config.width, 160);
    assert_eq!(config.height, 120);
}

#[test]
fn parse_finds_frame_interval() {
    let desc = make_test_descriptor();
    let config = parse_uvc_config(&desc).expect("should parse frame interval");
    assert_eq!(config.frame_interval, 370370);
}

#[test]
fn parse_finds_isoch_endpoint() {
    let desc = make_test_descriptor();
    let config = parse_uvc_config(&desc).expect("should parse endpoint");
    assert_eq!(config.vs_interface_num, 1);
    assert_eq!(config.alt_setting, 1);
    assert_eq!(config.endpoint_addr, 0x81);
    assert_eq!(config.max_packet_size, 956);
    assert_eq!(config.effective_max_packet(), 956);
}

#[test]
fn parse_rejects_missing_y16() {
    // Build a descriptor with no Y16 format — just a configuration + VC interface
    let mut desc = Vec::new();
    desc.extend_from_slice(&[9, 0x02, 0, 0, 1, 1, 0, 0x80, 250]);
    desc.extend_from_slice(&[9, 0x04, 0, 0, 0, 0x0E, 0x01, 0x00, 0]);
    let total = desc.len() as u16;
    desc[2] = total as u8;
    desc[3] = (total >> 8) as u8;

    let result = parse_uvc_config(&desc);
    assert!(result.is_err(), "should reject descriptor without Y16 format");
    assert_eq!(result.unwrap_err(), "Y16 format descriptor not found");
}

#[test]
fn parse_picks_largest_endpoint() {
    let mut desc = make_test_descriptor();
    // alt 2 with a larger endpoint (0x82, 3 x 1024 high-bandwidth)
    desc.extend_from_slice(&[9, 0x04, 1, 2, 1, 0x0E, 0x02, 0x00, 0]);
    desc.extend_from_slice(&[7, 0x05, 0x82, 0x05, 0x00, 0x14, 1]);
    // alt 3 with a smaller one: ignored
    desc.extend_from_slice(&[9, 0x04, 1, 3, 1, 0x0E, 0x02, 0x00, 0]);
    desc.extend_from_slice(&[7, 0x05, 0x83, 0x05, 0x00, 0x01, 1]);
    let config = parse_uvc_config(&desc).unwrap();
    assert_eq!(config.alt_setting, 2);
    assert_eq!(config.endpoint_addr, 0x82);
    assert_eq!(config.max_packet_size, 0x1400);
    assert_eq!(config.effective_max_packet(), 1024 * 3);
}

#[test]
fn parse_reports_missing_endpoint() {
    let desc = make_test_descriptor();
    // cut off the endpoint descriptor
    let cut = &desc[..desc.len() - 7];
    assert_eq!(parse_uvc_config(cut).unwrap_err(), "isochronous endpoint not found");
}

#[test]
fn parse_reports_missing_frame() {
    let desc = make_test_descriptor();
    // drop the frame descriptor (30 bytes after the 27-byte format descriptor)
    let format_end = 9 + 9 + 9 + 27;
    let mut without_frame = desc[..format_end].to_vec();
    without_frame.extend_from_slice(&desc[format_end + 30..]);
    assert_eq!(parse_uvc_config(&without_frame).unwrap_err(), "frame descriptor not found");
}

#[test]
fn parse_rejects_truncated_descriptor() {
    let desc = make_test_descriptor();
    // a descriptor whose length runs past the end is malformed
    let mut broken = desc[..9 + 9 + 9].to_vec();
    broken.extend_from_slice(&[60, 0x24, 0x04]);
    assert_eq!(parse_uvc_config(&broken).unwrap_err(), "Malformed descriptor at offset 27");
}

#[test]
fn parse_rejects_overrunning_descriptor_after_complete_config() {
    let mut desc = make_test_descriptor();
    assert_eq!(desc.len(), 100);
    desc.extend_from_slice(&[30, 0x24, 0x05]);
    assert_eq!(parse_uvc_config(&desc).unwrap_err(), "Malformed descriptor at offset 100");
}

#[test]
fn parse_rejects_short_length_and_stray_byte() {
    let mut desc = make_test_descriptor();
    desc.extend_from_slice(&[1, 0x24]);
    assert_eq!(parse_uvc_config(&desc).unwrap_err(), "Malformed descriptor at offset 100");
    let mut desc = make_test_descriptor();
    desc.push(7);
    assert_eq!(parse_uvc_config(&desc).unwrap_err(), "Malformed descriptor at offset 100");
    assert!(parse_uvc_config(&[]).is_err());
}

#[test]
fn effective_packet_of_high_bandwidth_endpoint() {
    let config = UvcStreamConfig {
        vs_interface_num: 1,
        format_index: 1,
        frame_index: 1,
        width: 160,
        height: 120,
        frame_interval: 370370,
        alt_setting: 1,
        endpoint_addr: 0x81,
        max_packet_size: 0x0BFF, // 1023 bytes, 2 transactions
        bits_per_pixel: 16,
    };
    assert_eq!(config.effective_max_packet(), 2046);
}
