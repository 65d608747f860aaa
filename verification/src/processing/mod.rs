//! The frame processing pipeline: Y16 → auto-gain → [invert] → [upscaled
//! image] → colorize → [isotherm overlay] → RGBA.

pub mod autogain;
pub mod colorize;
pub mod palettes;
pub mod upscale;

use vstd::prelude::*;

use autogain::{auto_gain, frame_present, is_auto_gain, y16_pixel, GainResult};
use colorize::{colorize, colorized};
use palettes::Palette;

verus! {

/// Result of processing a single Y16 frame.
#[derive(Debug, Clone)]
pub struct FrameResult {
    /// RGBA pixel data ready for display
    pub rgba: Vec<u8>,
    /// Frame width in pixels (may be upscaled)
    pub width: usize,
    /// Frame height in pixels (may be upscaled)
    pub height: usize,
    /// Processing statistics (always in sensor coordinates)
    pub stats: GainResult,
}

/// The black-hot image of a white-hot one: every level `v` becomes `255 - v`.
pub open spec fn inverted(g: Seq<u8>) -> Seq<u8> {
    Seq::new(g.len(), |i: int| (255 - g[i]) as u8)
}

/// Blend of a stripe colour component over an image component:
/// 75% stripe, 25% image.
pub open spec fn blend(stripe: u16, base: u8) -> u8 {
    ((stripe * 192 + base * 64) / 256) as u8
}

/// Component `c` (0 red, 1 green, 2 blue) of the stripe colour at display
/// pixel (`row`, `col`): red (220, 30, 30) on even diagonals, white otherwise.
pub open spec fn stripe_component(row: int, col: int, c: int) -> u16 {
    if (row + col) % 2 == 0 {
        if c == 0 { 220 } else { 30 }
    } else {
        255
    }
}

/// The sensor pixel under display pixel `i` of a `dw` × `dh` image that
/// shows a `w` × `h` frame.
pub open spec fn source_index(i: int, w: int, h: int, dw: int, dh: int) -> int {
    let row = i / dw;
    let col = i % dw;
    let orig_row = (row * h) / dh;
    let orig_col = (col * w) / dw;
    (if orig_row < h - 1 { orig_row } else { h - 1 }) * w + (if orig_col < w - 1 { orig_col } else { w - 1 })
}

/// Display pixel `i` is marked by the isotherm: its sensor pixel exceeds
/// the threshold.
pub open spec fn isotherm_hit(
    y16: Seq<u8>,
    w: int,
    h: int,
    dw: int,
    dh: int,
    threshold: u16,
    i: int,
) -> bool {
    threshold > 0 && y16_pixel(y16, source_index(i, w, h, dw, dh)) > threshold
}

/// The isotherm overlay of RGBA image `base` (`dw` × `dh`) over a `w` × `h`
/// Y16 frame: in every marked pixel red, green and blue become the blend of
/// the stripe colour over the image; everything else is kept.
pub open spec fn isotherm_overlay(
    base: Seq<u8>,
    y16: Seq<u8>,
    w: int,
    h: int,
    dw: int,
    dh: int,
    threshold: u16,
) -> Seq<u8> {
    Seq::new(
        base.len(),
        |k: int|
            {
                let i = k / 4;
                let c = k % 4;
                if c < 3 && i < dw * dh && isotherm_hit(y16, w, h, dw, dh, threshold, i) {
                    blend(stripe_component(i / dw, i % dw, c), base[k])
                } else {
                    base[k]
                }
            },
    )
}

/// The image shown for a frame: the upscaled image when there is one,
/// else the gain stage's grayscale at sensor size.
pub open spec fn display_image(
    stats: GainResult,
    w: usize,
    h: usize,
    upscaled: Option<(Vec<u8>, usize, usize)>,
) -> (Seq<u8>, usize, usize) {
    match upscaled {
        Some((g, uw, uh)) => (g@, uw, uh),
        None => (stats.grayscale@, w, h),
    }
}

/// The frame can be rendered without running out of range: the RGBA image
/// fits in memory and, when the isotherm is on, the display image covers
/// its nominal size and every sensor pixel it maps to is present.
pub open spec fn render_ok(
    y16: Seq<u8>,
    w: usize,
    h: usize,
    stats: GainResult,
    threshold: u16,
    upscaled: Option<(Vec<u8>, usize, usize)>,
) -> bool {
    let (g, dw, dh) = display_image(stats, w, h, upscaled);
    &&& g.len() * 4 <= usize::MAX
    &&& (threshold > 0 && dw * dh > 0) ==> {
        &&& g.len() == dw * dh
        &&& w > 0 && h > 0
        &&& y16.len() >= 2 * w * h
        &&& dh * h <= usize::MAX
        &&& dw * w <= usize::MAX
    }
}

/// `s` is auto-gain result `a` with its grayscale inverted when `invert`.
pub open spec fn gain_stage_of(s: GainResult, a: GainResult, invert: bool) -> bool {
    &&& s.min_val == a.min_val && s.max_val == a.max_val
    &&& s.min_pos == a.min_pos && s.max_pos == a.max_pos
    &&& s.grayscale@ == if invert { inverted(a.grayscale@) } else { a.grayscale@ }
}

/// `r` renders gain stage `stats`: the display image colorized in `palette`
/// under the isotherm overlay, at the display size.
pub open spec fn rendered(
    r: FrameResult,
    stats: GainResult,
    y16: Seq<u8>,
    width: usize,
    height: usize,
    palette: Palette,
    isotherm_raw: u16,
    upscaled: Option<(Vec<u8>, usize, usize)>,
) -> bool {
    let (g, dw, dh) = display_image(stats, width, height, upscaled);
    &&& r.width == dw && r.height == dh
    &&& r.stats == stats
    &&& r.rgba@ == isotherm_overlay(
        colorized(g, palette),
        y16,
        width as int,
        height as int,
        dw as int,
        dh as int,
        isotherm_raw,
    )
}

/// The gain stage: auto-gain, then inversion of the grayscale when `invert`.
pub fn gain_stage(y16_data: &[u8], width: usize, height: usize, invert: bool) -> (r: GainResult)
    requires
        width * height * 2 <= usize::MAX,
    ensures
        r.grayscale@.len() == if frame_present(y16_data@, width * height) { width * height } else { 0 },
        exists|a: GainResult| #[trigger] is_auto_gain(a, y16_data@, width * height) && gain_stage_of(r, a, invert),
{
    let mut stats = auto_gain(y16_data, width, height);
    let ghost a = stats;
    if invert {
        let mut g: Vec<u8> = Vec::with_capacity(stats.grayscale.len());
        let mut i: usize = 0;
        while i < stats.grayscale.len()
            invariant
                i <= stats.grayscale.len(),
                g@ == inverted(stats.grayscale@.subrange(0, i as int)),
            decreases stats.grayscale.len() - i,
        {
            g.push(255 - stats.grayscale[i]);
            i += 1;
            assert(g@ =~= inverted(stats.grayscale@.subrange(0, i as int)));
        }
        assert(stats.grayscale@.subrange(0, i as int) =~= stats.grayscale@);
        stats.grayscale = g;
    }
    assert(is_auto_gain(a, y16_data@, width * height));
    assert(gain_stage_of(stats, a, invert));
    stats
}

proof fn lemma_row_col_bounds(i: int, dw: int, dh: int, w: int, h: int)
    requires
        0 <= i < dw * dh,
        dw > 0,
        dh > 0,
        w > 0,
        h > 0,
    ensures
        0 <= i / dw < dh,
        0 <= i % dw < dw,
        (i / dw) * h < dh * h,
        (i % dw) * w < dw * w,
        i == (i / dw) * dw + i % dw,
        (i / dw) + (i % dw) <= i,
{
    assert(0 <= i / dw < dh) by (nonlinear_arith)
        requires
            0 <= i < dw * dh,
            dw > 0,
    ;
    assert(0 <= i % dw < dw) by (nonlinear_arith)
        requires
            dw > 0,
    ;
    assert(i == (i / dw) * dw + i % dw) by (nonlinear_arith)
        requires
            dw > 0,
    ;
    let row = i / dw;
    let col = i % dw;
    assert(row + col <= row * dw + col) by (nonlinear_arith)
        requires
            row >= 0,
            col >= 0,
            dw >= 1,
    ;
    assert(row * h < dh * h) by (nonlinear_arith)
        requires
            0 <= row < dh,
            h > 0,
    ;
    assert(col * w < dw * w) by (nonlinear_arith)
        requires
            0 <= col < dw,
            w > 0,
    ;
}

proof fn lemma_source_in_frame(r: int, c: int, w: int, h: int, len: int)
    requires
        0 <= r <= h - 1,
        0 <= c <= w - 1,
        2 * w * h <= len,
    ensures
        0 <= r * w + c,
        2 * (r * w + c) + 1 < len,
{
    assert(0 <= r * w + c < w * h) by (nonlinear_arith)
        requires
            0 <= r <= h - 1,
            0 <= c <= w - 1,
    ;
    assert(2 * w * h == 2 * (w * h)) by (nonlinear_arith);
}

/// Colorizes the display image and lays the isotherm over it.
///
/// `stats` is the gain stage of the frame; `upscaled`, when present, is a
/// super-resolved version of its grayscale with its width and height, and
/// is shown in its place. Pixels whose sensor value exceeds `isotherm_raw`
/// (when it is not 0) get a diagonal red/white stripe pattern, mapping
/// display coordinates back to the sensor frame.
pub fn render_frame(
    y16_data: &[u8],
    width: usize,
    height: usize,
    palette: Palette,
    isotherm_raw: u16,
    stats: GainResult,
    upscaled: Option<(Vec<u8>, usize, usize)>,
) -> (r: FrameResult)
    requires
        render_ok(y16_data@, width, height, stats, isotherm_raw, upscaled),
    ensures
        rendered(r, stats, y16_data@, width, height, palette, isotherm_raw, upscaled),
{
    let ghost disp = display_image(stats, width, height, upscaled);
    let (mut rgba, display_w, display_h) = match upscaled {
        Some((gs, w, h)) => (colorize(gs.as_slice(), palette), w, h),
        None => (colorize(stats.grayscale.as_slice(), palette), width, height),
    };
    let ghost base = rgba@;
    let ghost y = y16_data@;
    let ghost (wi, hi, dwi, dhi) = (width as int, height as int, display_w as int, display_h as int);
    assert(base == colorized(disp.0, palette));

    // Apply isotherm overlay: diagonal red/white stripes blended over thermal image.
    // Maps display pixel coordinates back to the sensor frame for the threshold check.
    assert(disp.1 == display_w && disp.2 == display_h);
    if isotherm_raw > 0 && display_w > 0 && display_h > 0 {
        assert(dwi * dhi > 0) by (nonlinear_arith)
            requires
                dwi > 0,
                dhi > 0,
        ;
        assert(display_w * display_h == disp.0.len());
        assert(width > 0 && height > 0);
        let pixel_count = display_w * display_h;
        let mut i: usize = 0;
        while i < pixel_count
            invariant
                i <= pixel_count,
                pixel_count == dwi * dhi,
                display_w > 0 && display_h > 0,
                width > 0 && height > 0,
                rgba@.len() == base.len(),
                rgba.len() == 4 * pixel_count,
                base.len() == 4 * pixel_count,
                y16_data.len() >= 2 * width * height,
                display_h * height <= usize::MAX,
                display_w * width <= usize::MAX,
                y == y16_data@,
                wi == width && hi == height && dwi == display_w && dhi == display_h,
                isotherm_raw > 0,
                forall|k: int|
                    0 <= k < base.len() ==> #[trigger] rgba@[k] == (if k / 4 < i {
                        isotherm_overlay(base, y, wi, hi, dwi, dhi, isotherm_raw)[k]
                    } else {
                        base[k]
                    }),
            decreases pixel_count - i,
        {
            proof { lemma_row_col_bounds(i as int, dwi, dhi, wi, hi); }
            let row = i / display_w;
            let col = i % display_w;
            // Map to sensor coordinates (integer division works for integer scale factors)
            let orig_row = (row * height) / display_h;
            let orig_col = (col * width) / display_w;
            let r_clamped = if orig_row < height - 1 { orig_row } else { height - 1 };
            let c_clamped = if orig_col < width - 1 { orig_col } else { width - 1 };
            proof { lemma_source_in_frame(r_clamped as int, c_clamped as int, wi, hi, y16_data.len() as int); }
            let orig_i = r_clamped * width + c_clamped;
            assert(orig_i == source_index(i as int, wi, hi, dwi, dhi));
            let raw: u16 = y16_data[orig_i * 2] as u16 + 256 * (y16_data[orig_i * 2 + 1] as u16);
            assert(raw == y16_pixel(y, orig_i as int));
            let ghost before = rgba@;
            if raw > isotherm_raw {
                let stripe = ((row + col) % 2) == 0;
                let base_idx = i * 4;
                let (sr, sg, sb): (u16, u16, u16) = if stripe { (220, 30, 30) } else { (255, 255, 255) };
                // Blend at 75% stripe / 25% image
                let v0 = ((sr * 192 + rgba[base_idx] as u16 * 64) / 256) as u8;
                rgba.set(base_idx, v0);
                let v1 = ((sg * 192 + rgba[base_idx + 1] as u16 * 64) / 256) as u8;
                rgba.set(base_idx + 1, v1);
                let v2 = ((sb * 192 + rgba[base_idx + 2] as u16 * 64) / 256) as u8;
                rgba.set(base_idx + 2, v2);
            }
            proof {
                let ov = isotherm_overlay(base, y, wi, hi, dwi, dhi, isotherm_raw);
                assert forall|k: int| 0 <= k < base.len() implies #[trigger] rgba@[k] == (if k / 4 < i + 1 {
                    ov[k]
                } else {
                    base[k]
                }) by {
                    if k / 4 == i {
                        assert(before[k] == base[k]);
                        assert(k % 4 < 3 ==> k == 4 * i + k % 4);
                    }
                }
            }
            i += 1;
        }
        assert(rgba@ =~= isotherm_overlay(base, y, wi, hi, dwi, dhi, isotherm_raw));
    } else {
        assert forall|k: int| 0 <= k < base.len() implies base[k] == #[trigger] isotherm_overlay(
            base, y, wi, hi, dwi, dhi, isotherm_raw)[k] by {
            if isotherm_raw > 0 {
                assert(dwi * dhi == 0) by (nonlinear_arith)
                    requires
                        dwi == 0 || dhi == 0,
                ;
            }
        }
        assert(rgba@ =~= isotherm_overlay(base, y, wi, hi, dwi, dhi, isotherm_raw));
    }

    FrameResult { rgba, width: display_w, height: display_h, stats }
}

/// Full processing pipeline: Y16 → auto-gain → colorize → RGBA → isotherm overlay.
/// When `invert` is true, the grayscale is flipped (white-hot ↔ black-hot).
/// When `isotherm_raw` > 0, pixels whose raw Y16 value exceeds the threshold
/// get a diagonal red/white stripe pattern.
/// When `upscaled` holds a super-resolved version of the (inverted)
/// grayscale with its width and height, it is colorized in its place.
pub fn process_frame(
    y16_data: &[u8],
    width: usize,
    height: usize,
    palette: Palette,
    invert: bool,
    isotherm_raw: u16,
    upscaled: Option<(Vec<u8>, usize, usize)>,
) -> (r: FrameResult)
    requires
        width * height * 4 <= usize::MAX,
        isotherm_raw > 0 && width * height > 0 ==> y16_data.len() >= 2 * width * height,
        upscaled is None && isotherm_raw > 0 && width * height > 0 ==> height * height <= usize::MAX
            && width * width <= usize::MAX,
        upscaled matches Some((g, uw, uh)) ==> {
            &&& g.len() * 4 <= usize::MAX
            &&& isotherm_raw > 0 && uw * uh > 0 ==> {
                &&& g.len() == uw * uh
                &&& width > 0 && height > 0
                &&& y16_data.len() >= 2 * width * height
                &&& uh * height <= usize::MAX
                &&& uw * width <= usize::MAX
            }
        },
    ensures
        is_rendering(r, y16_data@, width, height, palette, invert, isotherm_raw, upscaled),
{
    let stats = gain_stage(y16_data, width, height, invert);
    proof {
        let n = width * height;
        assert(n * 2 <= usize::MAX);
        assert(2 * width * height == 2 * n) by (nonlinear_arith)
            requires
                n == width * height,
        ;
        if isotherm_raw > 0 && n > 0 {
            assert(frame_present(y16_data@, n));
            assert(width > 0 && height > 0) by (nonlinear_arith)
                requires
                    n == width * height,
                    n > 0,
            ;
        }
        assert(render_ok(y16_data@, width, height, stats, isotherm_raw, upscaled));
    }
    let r = render_frame(y16_data, width, height, palette, isotherm_raw, stats, upscaled);
    r
}

/// `r` is what the pipeline gives for the frame: the gain stage's statistics
/// and the rendering of the displayed image.
pub open spec fn is_rendering(
    r: FrameResult,
    y16: Seq<u8>,
    width: usize,
    height: usize,
    palette: Palette,
    invert: bool,
    isotherm_raw: u16,
    upscaled: Option<(Vec<u8>, usize, usize)>,
) -> bool {
    &&& exists|a: GainResult| #[trigger] is_auto_gain(a, y16, width * height) && gain_stage_of(r.stats, a, invert)
    &&& rendered(r, r.stats, y16, width, height, palette, isotherm_raw, upscaled)
}

/// With the isotherm off the overlay changes nothing: the output is the
/// plain colorized image.
pub proof fn isotherm_off_keeps_image(base: Seq<u8>, y16: Seq<u8>, w: int, h: int, dw: int, dh: int)
    ensures
        isotherm_overlay(base, y16, w, h, dw, dh, 0) == base,
{
    assert(isotherm_overlay(base, y16, w, h, dw, dh, 0) =~= base);
}

/// Display pixels whose sensor value does not exceed the threshold keep their
/// colour, and the alpha byte of every pixel is kept.
pub proof fn isotherm_keeps_cold_pixels(
    base: Seq<u8>,
    y16: Seq<u8>,
    w: int,
    h: int,
    dw: int,
    dh: int,
    threshold: u16,
    k: int,
)
    requires
        0 <= k < base.len(),
        !isotherm_hit(y16, w, h, dw, dh, threshold, k / 4) || k % 4 == 3,
    ensures
        isotherm_overlay(base, y16, w, h, dw, dh, threshold)[k] == base[k],
{
}

proof fn lemma_scaled_coordinate(x: int, n: int, s: int)
    requires
        s > 0,
        n > 0,
        0 <= x < s * n,
    ensures
        (x * n) / (s * n) == x / s,
        0 <= x / s < n,
{
    let q = x / s;
    let r = x % s;
    vstd::arithmetic::div_mod::lemma_fundamental_div_mod(x, s);
    assert(0 <= r < s);
    assert(x * n == q * (s * n) + r * n) by (nonlinear_arith)
        requires
            x == s * q + r,
    ;
    assert(0 <= r * n < s * n) by (nonlinear_arith)
        requires
            0 <= r < s,
            n > 0,
    ;
    vstd::arithmetic::div_mod::lemma_fundamental_div_mod_converse(x * n, s * n, q, r * n);
    assert(0 <= q < n) by (nonlinear_arith)
        requires
            x == s * q + r,
            0 <= r < s,
            0 <= x < s * n,
            s > 0,
    ;
}

/// When the display image is the sensor frame scaled by a whole factor `s`
/// (`dw == s * w`, `dh == s * h`), display pixel (`row`, `col`) shows
/// sensor pixel (`row / s`, `col / s`): that is the pixel the isotherm
/// tests. At factor 1 every display pixel is its own sensor pixel.
pub proof fn display_pixel_source_at_whole_scale(w: int, h: int, s: int, row: int, col: int)
    requires
        w > 0,
        h > 0,
        s > 0,
        0 <= row < s * h,
        0 <= col < s * w,
    ensures
        source_index(row * (s * w) + col, w, h, s * w, s * h) == (row / s) * w + col / s,
        s == 1 ==> source_index(row * w + col, w, h, w, h) == row * w + col,
{
    assert(s * w > 0) by (nonlinear_arith)
        requires
            s > 0,
            w > 0,
    ;
    let dw = s * w;
    let i = row * dw + col;
    vstd::arithmetic::div_mod::lemma_fundamental_div_mod_converse(i, dw, row, col);
    lemma_scaled_coordinate(row, h, s);
    lemma_scaled_coordinate(col, w, s);
    assert((row * h) / (s * h) == row / s);
    assert((col * w) / (s * w) == col / s);
    if s == 1 {
        assert(row / 1 == row && col / 1 == col);
        assert(s * w == w && s * h == h);
    }
}

/// Under the isotherm, at a whole scale factor `s`, display pixel
/// (`row`, `col`) is striped exactly when the threshold is on and the
/// sensor pixel (`row / s`, `col / s`) exceeds it.
pub proof fn isotherm_tests_scaled_source_pixel(
    y16: Seq<u8>,
    w: int,
    h: int,
    s: int,
    threshold: u16,
    row: int,
    col: int,
)
    requires
        w > 0,
        h > 0,
        s > 0,
        0 <= row < s * h,
        0 <= col < s * w,
    ensures
        isotherm_hit(y16, w, h, s * w, s * h, threshold, row * (s * w) + col) == (threshold > 0
            && y16_pixel(y16, (row / s) * w + col / s) > threshold),
{
    display_pixel_source_at_whole_scale(w, h, s, row, col);
}

/// Inverting twice gives the same grayscale back.
pub proof fn inversion_is_involution(g: Seq<u8>)
    ensures
        inverted(inverted(g)) == g,
{
    assert(inverted(inverted(g)) =~= g);
}

} // verus!
