use thermal_v2_lib::processing::autogain::auto_gain;
use thermal_v2_lib::processing::colorize::colorize;
use thermal_v2_lib::processing::palettes::{get_palette, palette_color, Palette};
use thermal_v2_lib::processing::upscale::{crop_top_left, pad_edge_replicate, scale_from_output_height};
use thermal_v2_lib::processing::{gain_stage, process_frame, render_frame};

fn make_y16_frame(values: &[u16]) -> Vec<u8> {
    values.iter().flat_map(|v| v.to_le_bytes()).collect()
}

#[test]
fn auto_gain_normalizes_to_full_range() {
    // 4 pixels: min=100, max=200
    let frame = make_y16_frame(&[100, 150, 200, 100]);
    let result = auto_gain(&frame, 2, 2);

    assert_eq!(result.grayscale.len(), 4);
    assert_eq!(result.grayscale[0], 0); // min → 0
    assert_eq!(result.grayscale[2], 255); // max → 255
    // midpoint: (150-100)/(200-100) * 255 ≈ 127
    assert!((result.grayscale[1] as i16 - 127).abs() <= 1);
}

#[test]
fn auto_gain_reports_min_max() {
    let frame = make_y16_frame(&[300, 100, 500, 200]);
    let result = auto_gain(&frame, 2, 2);

    assert_eq!(result.min_val, 100);
    assert_eq!(result.max_val, 500);
    assert_eq!(result.min_pos, 1); // index of value 100
    assert_eq!(result.max_pos, 2); // index of value 500
}

#[test]
fn auto_gain_uniform_frame() {
    // All same value → all output should be 0 (no division by zero)
    let frame = make_y16_frame(&[1000, 1000, 1000, 1000]);
    let result = auto_gain(&frame, 2, 2);

    assert_eq!(result.grayscale, vec![0, 0, 0, 0]);
    assert_eq!(result.min_val, 1000);
    assert_eq!(result.max_val, 1000);
}

#[test]
fn auto_gain_empty_frame() {
    let result = auto_gain(&[], 0, 0);
    assert!(result.grayscale.is_empty());
}

#[test]
fn auto_gain_short_buffer_is_empty() {
    let frame = make_y16_frame(&[1, 2, 3]);
    let result = auto_gain(&frame, 2, 2);
    assert!(result.grayscale.is_empty());
    assert_eq!((result.min_val, result.max_val, result.min_pos, result.max_pos), (0, 0, 0, 0));
}

#[test]
fn auto_gain_matches_floating_point_stretch() {
    // the integer stretch equals the truncated floating-point stretch
    let values: Vec<u16> = vec![0, 1, 2, 85, 170, 254, 255, 300, 65535, 7, 13, 100];
    let frame = make_y16_frame(&values);
    let result = auto_gain(&frame, 4, 3);
    let range = (65535 - 0) as f64;
    for (i, &v) in values.iter().enumerate() {
        assert_eq!(result.grayscale[i], ((v as f64 / range) * 255.0) as u8);
    }
    let frame = make_y16_frame(&[3, 4, 5, 6]);
    let result = auto_gain(&frame, 2, 2);
    assert_eq!(result.grayscale, vec![0, 85, 170, 255]);
}

#[test]
fn auto_gain_first_extreme_position_wins() {
    let frame = make_y16_frame(&[7, 3, 9, 3, 9, 7]);
    let result = auto_gain(&frame, 3, 2);
    assert_eq!((result.min_pos, result.max_pos), (1, 2));
    let frame = make_y16_frame(&[65535, 65535]);
    let result = auto_gain(&frame, 2, 1);
    assert_eq!((result.min_val, result.min_pos, result.max_val, result.max_pos), (65535, 0, 65535, 0));
}

#[test]
fn colorize_maps_grayscale_to_rgba() {
    let input = vec![0u8, 128, 255];
    let result = colorize(&input, Palette::Grayscale);

    assert_eq!(result.len(), 12); // 3 pixels * 4 bytes RGBA
    // Pixel 0: grayscale value 0 -> (0, 0, 0, 255)
    assert_eq!(&result[0..4], &[0, 0, 0, 255]);
    // Pixel 1: grayscale value 128 -> (128, 128, 128, 255)
    assert_eq!(&result[4..8], &[128, 128, 128, 255]);
    // Pixel 2: grayscale value 255 -> (255, 255, 255, 255)
    assert_eq!(&result[8..12], &[255, 255, 255, 255]);
}

#[test]
fn colorize_empty_input() {
    let result = colorize(&[], Palette::IronBlack);
    assert!(result.is_empty());
}

#[test]
fn colorize_uses_palette_table() {
    for p in [Palette::IronBlack, Palette::Rainbow, Palette::Grayscale] {
        let lut = get_palette(p);
        assert_eq!(lut.len(), 768);
        let input: Vec<u8> = (0..=255).collect();
        let rgba = colorize(&input, p);
        for v in 0..256usize {
            assert_eq!(&rgba[4 * v..4 * v + 3], &lut[3 * v..3 * v + 3]);
            assert_eq!(rgba[4 * v + 3], 255);
        }
    }
}

#[test]
fn palette_ends() {
    assert_eq!(palette_color(Palette::IronBlack, 0), (0, 0, 0));
    assert_eq!(palette_color(Palette::IronBlack, 255), (255, 255, 252));
    assert_eq!(palette_color(Palette::Rainbow, 0), (0, 0, 255));
    assert_eq!(palette_color(Palette::Rainbow, 255), (255, 3, 0));
    assert_eq!(palette_color(Palette::Grayscale, 77), (77, 77, 77));
}

#[test]
fn pipeline_produces_correct_rgba_output() {
    // 2x2 frame, values 0-300
    let frame = make_y16_frame(&[0, 100, 200, 300]);
    let result = process_frame(&frame, 2, 2, Palette::Grayscale, false, 0, None);

    assert_eq!(result.rgba.len(), 16); // 4 pixels * 4 RGBA
    assert_eq!(result.width, 2);
    assert_eq!(result.height, 2);
    assert_eq!(result.rgba[3], 255); // alpha
    assert_eq!(result.rgba[12], 255); // R
    assert_eq!(result.rgba[15], 255); // A
}

#[test]
fn isotherm_applies_stripes() {
    let frame = make_y16_frame(&[100, 200, 300, 400]);
    let result_no_iso = process_frame(&frame, 2, 2, Palette::Grayscale, false, 0, None);
    let result_iso = process_frame(&frame, 2, 2, Palette::Grayscale, false, 250, None);

    // Pixels 0,1 (100,200) below threshold → unchanged
    assert_eq!(&result_iso.rgba[0..8], &result_no_iso.rgba[0..8]);
    // Pixels 2,3 (300,400) above threshold → blended, should differ from the plain image
    assert_ne!(&result_iso.rgba[8..12], &result_no_iso.rgba[8..12]);
    assert_ne!(&result_iso.rgba[12..16], &result_no_iso.rgba[12..16]);
}

#[test]
fn isotherm_marks_only_values_above_threshold() {
    let frame = make_y16_frame(&[100, 200, 250, 400]);
    let a = process_frame(&frame, 2, 2, Palette::Grayscale, false, 0, None);
    let b = process_frame(&frame, 2, 2, Palette::Grayscale, false, 250, None);
    // raw 250 equals the threshold: not striped
    assert_eq!(&b.rgba[8..12], &a.rgba[8..12]);
    // raw 400 exceeds it: striped
    assert_ne!(&b.rgba[12..16], &a.rgba[12..16]);
}

#[test]
fn isotherm_blend_values() {
    let frame = make_y16_frame(&[100, 200, 300, 400]);
    let result = process_frame(&frame, 2, 2, Palette::Grayscale, false, 250, None);
    // pixel 2 (row 1, col 0): white stripe over level 170
    assert_eq!(&result.rgba[8..12], &[233, 233, 233, 255]);
    // pixel 3 (row 1, col 1): red stripe over level 255
    assert_eq!(&result.rgba[12..16], &[228, 86, 86, 255]);
}

#[test]
fn invert_flips_grayscale() {
    let frame = make_y16_frame(&[0, 100, 200, 300]);
    let plain = process_frame(&frame, 2, 2, Palette::Grayscale, false, 0, None);
    let inverted = process_frame(&frame, 2, 2, Palette::Grayscale, true, 0, None);
    for i in 0..4 {
        assert_eq!(inverted.stats.grayscale[i], 255 - plain.stats.grayscale[i]);
    }
    assert_eq!(inverted.stats.min_pos, 0);
    assert_eq!(inverted.stats.max_pos, 3);
    assert_eq!(&inverted.rgba[0..4], &[255, 255, 255, 255]);
}

#[test]
fn upscaled_image_is_displayed_and_mapped_back() {
    let frame = make_y16_frame(&[100, 400]);
    let stats = gain_stage(&frame, 2, 1, false);
    // a 4x2 upscaled image: columns 0-1 show pixel 0, columns 2-3 pixel 1
    let up = vec![0u8, 0, 255, 255, 0, 0, 255, 255];
    let r = render_frame(&frame, 2, 1, Palette::Grayscale, 250, stats, Some((up, 4, 2)));
    assert_eq!((r.width, r.height), (4, 2));
    assert_eq!(r.rgba.len(), 32);
    // display pixel 0 maps to sensor pixel 0 (100 < 250): unchanged
    assert_eq!(&r.rgba[0..4], &[0, 0, 0, 255]);
    // display pixel 2 (row 0, col 2) maps to sensor pixel 1 (400): red stripe
    assert_eq!(&r.rgba[8..12], &[228, 86, 86, 255]);
    // display pixel 3 (row 0, col 3): white stripe
    assert_eq!(&r.rgba[12..16], &[255, 255, 255, 255]);
}

#[test]
fn padding_replicates_edges() {
    let g = [1u8, 2, 3, 4]; // 2x2
    let p = pad_edge_replicate(&g, 2, 2, 3, 3);
    assert_eq!(p, vec![1, 2, 2, 3, 4, 4, 3, 4, 4]);
}

#[test]
fn cropping_keeps_top_left() {
    let data: Vec<f32> = (0..12).map(|v| v as f32).collect(); // 4 wide, 3 high
    let c = crop_top_left(&data, 4, 2, 2);
    assert_eq!(c, vec![0.0, 1.0, 4.0, 5.0]);
    assert!(crop_top_left(&data, 4, 0, 0).is_empty());
}

#[test]
fn scale_from_model_output() {
    assert_eq!(scale_from_output_height(672), 3);
    assert_eq!(scale_from_output_height(224), 1);
    assert_eq!(scale_from_output_height(100), 0);
}
