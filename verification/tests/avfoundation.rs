use thermal_v2_lib::avfoundation::{
    bytes_per_pixel, captured_format_of, choose_pixel_format, is_purethermal_name, CapturedFormat,
    CapturedFrame,
    PIXEL_FORMAT_16_GRAY, PIXEL_FORMAT_32_BGRA,
};
use thermal_v2_lib::processing::upscale::crop_top_left;

#[test]
fn captured_format_debug() {
    assert_eq!(format!("{:?}", CapturedFormat::Y16), "Y16");
    assert_eq!(format!("{:?}", CapturedFormat::BGRA), "BGRA");
}

#[test]
fn captured_format_equality() {
    assert_eq!(CapturedFormat::Y16, CapturedFormat::Y16);
    assert_eq!(CapturedFormat::BGRA, CapturedFormat::BGRA);
    assert_ne!(CapturedFormat::Y16, CapturedFormat::BGRA);
}

#[test]
fn pixel_format_constants() {
    // kCVPixelFormatType_32BGRA = 'BGRA' = 0x42475241
    assert_eq!(PIXEL_FORMAT_32_BGRA, 0x42475241);
    // kCVPixelFormatType_16Gray = 'b16g' = 0x62313667
    assert_eq!(PIXEL_FORMAT_16_GRAY, 0x62313667);
}

#[test]
fn captured_frame_struct() {
    let frame = CapturedFrame {
        data: vec![0u8; 160 * 120 * 4],
        width: 160,
        height: 120,
        format: CapturedFormat::BGRA,
    };
    assert_eq!(frame.data.len(), 160 * 120 * 4);
    assert_eq!(frame.width, 160);
    assert_eq!(frame.height, 120);
    assert_eq!(frame.format, CapturedFormat::BGRA);
}

#[test]
fn y16_frame_sizing() {
    let frame = CapturedFrame {
        data: vec![0u8; 160 * 120 * 2],
        width: 160,
        height: 120,
        format: CapturedFormat::Y16,
    };
    assert_eq!(frame.data.len(), 160 * 120 * 2);
}

#[test]
fn prefers_sixteen_bit_gray() {
    assert_eq!(
        choose_pixel_format(&[PIXEL_FORMAT_32_BGRA, PIXEL_FORMAT_16_GRAY]),
        (PIXEL_FORMAT_16_GRAY, CapturedFormat::Y16)
    );
    assert_eq!(choose_pixel_format(&[PIXEL_FORMAT_32_BGRA]), (PIXEL_FORMAT_32_BGRA, CapturedFormat::BGRA));
    assert_eq!(choose_pixel_format(&[]), (PIXEL_FORMAT_32_BGRA, CapturedFormat::BGRA));
}

#[test]
fn delivered_format_and_pixel_size() {
    assert_eq!(captured_format_of(PIXEL_FORMAT_16_GRAY), CapturedFormat::Y16);
    assert_eq!(captured_format_of(0x34323076), CapturedFormat::BGRA);
    assert_eq!(bytes_per_pixel(CapturedFormat::Y16), 2);
    assert_eq!(bytes_per_pixel(CapturedFormat::BGRA), 4);
}

#[test]
fn rows_are_packed_without_padding() {
    // 2 pixels of 2 bytes per row, rows 6 bytes apart
    let src = [1u8, 2, 3, 4, 0, 0, 5, 6, 7, 8];
    assert_eq!(crop_top_left(&src, 6, 4, 2), vec![1, 2, 3, 4, 5, 6, 7, 8]);
}

#[test]
fn purethermal_name_matches_any_case() {
    assert!(is_purethermal_name("PureThermal 2"));
    assert!(is_purethermal_name("PURETHERMAL"));
    assert!(is_purethermal_name("GroupGets PureThermal (fw v1.3.0)"));
    assert!(!is_purethermal_name("FaceTime HD Camera"));
    assert!(!is_purethermal_name("Pure Thermal"));
    assert!(!is_purethermal_name(""));
}
