//! Auto-gain processing for 16-bit thermal frames.
//! Normalizes Y16 (16-bit unsigned) pixel values to 8-bit (0-255)
//! using linear contrast stretching based on frame min/max.

use vstd::prelude::*;

verus! {

/// Result of auto-gain processing, including metadata.
#[derive(Debug, Clone)]
pub struct GainResult {
    /// Normalized 8-bit grayscale buffer
    pub grayscale: Vec<u8>,
    /// Minimum raw value in frame
    pub min_val: u16,
    /// Maximum raw value in frame
    pub max_val: u16,
    /// Pixel index of minimum value
    pub min_pos: usize,
    /// Pixel index of maximum value
    pub max_pos: usize,
}

/// Pixel `i` of a Y16 buffer: the little-endian value of bytes `2i` and `2i + 1`.
pub open spec fn y16_pixel(d: Seq<u8>, i: int) -> u16 {
    (d[2 * i] + 256 * d[2 * i + 1]) as u16
}

/// The 8-bit level of raw value `p` when `lo..=hi` is stretched over `0..=255`
/// (rounded down); zero when the range is empty.
pub open spec fn gain_level(p: u16, lo: u16, hi: u16) -> u8 {
    if hi <= lo {
        0
    } else {
        ((255 * (p - lo)) / ((hi - lo) as int)) as u8
    }
}

/// A buffer holds a whole frame of `n` pixels, with `n` not zero.
pub open spec fn frame_present(d: Seq<u8>, n: int) -> bool {
    n > 0 && d.len() >= 2 * n
}

/// `r` is the auto-gain of the `n`-pixel Y16 frame `d`.
pub open spec fn is_auto_gain(r: GainResult, d: Seq<u8>, n: int) -> bool {
    if !frame_present(d, n) {
        &&& r.grayscale@.len() == 0
        &&& r.min_val == 0 && r.max_val == 0 && r.min_pos == 0 && r.max_pos == 0
    } else {
        &&& r.grayscale@.len() == n
        &&& r.min_pos < n && r.max_pos < n
        &&& y16_pixel(d, r.min_pos as int) == r.min_val
        &&& y16_pixel(d, r.max_pos as int) == r.max_val
        &&& forall|i: int| 0 <= i < n ==> r.min_val <= #[trigger] y16_pixel(d, i) <= r.max_val
        &&& forall|i: int| 0 <= i < r.min_pos ==> #[trigger] y16_pixel(d, i) > r.min_val
        &&& forall|i: int| 0 <= i < r.max_pos ==> #[trigger] y16_pixel(d, i) < r.max_val
        &&& forall|i: int|
            0 <= i < n ==> r.grayscale@[i] == gain_level(#[trigger] y16_pixel(d, i), r.min_val, r.max_val)
    }
}

proof fn lemma_level_bounded(a: int, r: int)
    requires
        0 <= a <= r,
        r > 0,
    ensures
        0 <= (255 * a) / r <= 255,
{
    assert((255 * a) / r <= 255) by (nonlinear_arith)
        requires
            0 <= a <= r,
            r > 0,
    ;
    assert(0 <= (255 * a) / r) by (nonlinear_arith)
        requires
            0 <= a,
            r > 0,
    ;
}

fn level(p: u16, lo: u16, hi: u16) -> (g: u8)
    requires
        lo <= p <= hi,
    ensures
        g == gain_level(p, lo, hi),
{
    if hi == lo {
        0
    } else {
        let a: u32 = (p - lo) as u32;
        let r: u32 = (hi - lo) as u32;
        proof { lemma_level_bounded(a as int, r as int); }
        ((255 * a) / r) as u8
    }
}

/// Applies linear auto-gain to a Y16 frame buffer.
/// Input: raw 16-bit pixel values (little-endian u16 pairs).
/// Output: 8-bit normalized grayscale + frame statistics.
pub fn auto_gain(y16_data: &[u8], width: usize, height: usize) -> (r: GainResult)
    requires
        width * height * 2 <= usize::MAX,
    ensures
        is_auto_gain(r, y16_data@, width * height),
{
    let pixel_count = width * height;
    if pixel_count == 0 || y16_data.len() < pixel_count * 2 {
        return GainResult {
            grayscale: Vec::new(),
            min_val: 0,
            max_val: 0,
            min_pos: 0,
            max_pos: 0,
        };
    }
    let ghost d = y16_data@;
    let ghost n = pixel_count as int;

    // Parse Y16 little-endian pixels and find min/max
    let mut pixels: Vec<u16> = Vec::with_capacity(pixel_count);
    let mut i: usize = 0;
    while i < pixel_count
        invariant
            i <= pixel_count,
            pixel_count * 2 <= y16_data.len(),
            pixels.len() == i,
            forall|k: int| 0 <= k < i ==> pixels@[k] == #[trigger] y16_pixel(d, k),
            d == y16_data@,
        decreases pixel_count - i,
    {
        pixels.push(y16_data[2 * i] as u16 + 256 * (y16_data[2 * i + 1] as u16));
        i += 1;
    }

    let mut min_val: u16 = u16::MAX;
    let mut max_val: u16 = 0;
    let mut min_pos: usize = 0;
    let mut max_pos: usize = 0;
    let mut i: usize = 0;
    while i < pixel_count
        invariant
            i <= pixel_count,
            pixels.len() == pixel_count,
            forall|k: int| 0 <= k < pixel_count ==> pixels@[k] == #[trigger] y16_pixel(d, k),
            min_pos < pixel_count,
            max_pos < pixel_count,
            i == 0 ==> min_pos == 0 && max_pos == 0 && min_val == u16::MAX && max_val == 0,
            i > 0 ==> min_pos < i && max_pos < i,
            i > 0 ==> y16_pixel(d, min_pos as int) == min_val,
            i > 0 ==> y16_pixel(d, max_pos as int) == max_val,
            forall|k: int| 0 <= k < i ==> min_val <= #[trigger] y16_pixel(d, k) <= max_val,
            forall|k: int| 0 <= k < min_pos ==> #[trigger] y16_pixel(d, k) > min_val,
            forall|k: int| 0 <= k < max_pos ==> #[trigger] y16_pixel(d, k) < max_val,
        decreases pixel_count - i,
    {
        let val = pixels[i];
        if val < min_val {
            min_val = val;
            min_pos = i;
        }
        if val > max_val {
            max_val = val;
            max_pos = i;
        }
        if i == 0 {
            // the first pixel is both bounds when it equals the initial sentinels
            if val == u16::MAX {
                assert(y16_pixel(d, 0) == min_val);
            }
            if val == 0 {
                assert(y16_pixel(d, 0) == max_val);
            }
        }
        i += 1;
    }
    assert(y16_pixel(d, min_pos as int) == min_val);
    assert(y16_pixel(d, max_pos as int) == max_val);

    // Linear normalization to 0-255
    let mut grayscale: Vec<u8> = Vec::with_capacity(pixel_count);
    let mut i: usize = 0;
    while i < pixel_count
        invariant
            i <= pixel_count,
            pixels.len() == pixel_count,
            forall|k: int| 0 <= k < pixel_count ==> pixels@[k] == #[trigger] y16_pixel(d, k),
            forall|k: int| 0 <= k < pixel_count ==> min_val <= #[trigger] y16_pixel(d, k) <= max_val,
            grayscale.len() == i,
            forall|k: int|
                0 <= k < i ==> grayscale@[k] == gain_level(#[trigger] y16_pixel(d, k), min_val, max_val),
        decreases pixel_count - i,
    {
        let val = pixels[i];
        assert(val == y16_pixel(d, i as int));
        grayscale.push(level(val, min_val, max_val));
        i += 1;
    }

    GainResult { grayscale, min_val, max_val, min_pos, max_pos }
}

/// Auto-gain stretches a frame over the whole 8-bit range: the minimum maps
/// to 0 and, when the frame is not uniform, the maximum maps to 255.
pub proof fn auto_gain_spans_full_range(lo: u16, hi: u16)
    requires
        lo < hi,
    ensures
        gain_level(lo, lo, hi) == 0,
        gain_level(hi, lo, hi) == 255,
{
    assert((255 * ((hi - lo) as int)) / ((hi - lo) as int) == 255) by (nonlinear_arith)
        requires
            hi - lo > 0,
    ;
}

/// A uniform frame (minimum equal to maximum) maps every pixel to 0.
pub proof fn auto_gain_uniform_is_black(p: u16, v: u16)
    ensures
        gain_level(p, v, v) == 0,
{
}

/// Auto-gain preserves the order of raw values.
pub proof fn auto_gain_is_monotonic(p: u16, q: u16, lo: u16, hi: u16)
    requires
        lo <= p <= q <= hi,
    ensures
        gain_level(p, lo, hi) <= gain_level(q, lo, hi),
{
    if lo < hi {
        let r = (hi - lo) as int;
        let a = (p - lo) as int;
        let b = (q - lo) as int;
        lemma_level_bounded(a, r);
        lemma_level_bounded(b, r);
        assert((255 * a) / r <= (255 * b) / r) by (nonlinear_arith)
            requires
                0 <= a <= b,
                r > 0,
        ;
    }
}

} // verus!
