//! Palette colorization of 8-bit grayscale images.

use vstd::prelude::*;

use super::palettes::{get_palette, palette_rgb, Palette};

verus! {

/// The RGBA image of grayscale `g` in palette `p`: four bytes per pixel,
/// red, green and blue from the palette and alpha 255.
pub open spec fn colorized(g: Seq<u8>, p: Palette) -> Seq<u8> {
    Seq::new(
        4 * g.len(),
        |k: int|
            {
                let c = palette_rgb(p, g[k / 4]);
                if k % 4 == 0 {
                    c.0
                } else if k % 4 == 1 {
                    c.1
                } else if k % 4 == 2 {
                    c.2
                } else {
                    255u8
                }
            },
    )
}

/// Applies a color palette LUT to an 8-bit grayscale buffer.
/// Returns an RGBA buffer (4 bytes per pixel, alpha = 255).
pub fn colorize(grayscale: &[u8], palette: Palette) -> (rgba: Vec<u8>)
    requires
        grayscale.len() * 4 <= usize::MAX,
    ensures
        rgba@ == colorized(grayscale@, palette),
{
    let lut = get_palette(palette);
    let mut rgba: Vec<u8> = Vec::with_capacity(grayscale.len() * 4);
    let mut i: usize = 0;
    while i < grayscale.len()
        invariant
            i <= grayscale.len(),
            grayscale.len() * 4 <= usize::MAX,
            lut.len() == 768,
            forall|v: u8|
                #![trigger palette_rgb(palette, v)]
                lut@[3 * v] == palette_rgb(palette, v).0 && lut@[3 * v + 1] == palette_rgb(palette, v).1
                    && lut@[3 * v + 2] == palette_rgb(palette, v).2,
            rgba@ == colorized(grayscale@.subrange(0, i as int), palette),
        decreases grayscale.len() - i,
    {
        let val = grayscale[i];
        let idx = val as usize * 3;
        let ghost c = palette_rgb(palette, val);
        rgba.push(lut[idx]);
        rgba.push(lut[idx + 1]);
        rgba.push(lut[idx + 2]);
        rgba.push(255);
        i += 1;
        proof {
            let g = grayscale@.subrange(0, i as int);
            let prev = grayscale@.subrange(0, i - 1);
            assert forall|k: int| 0 <= k < 4 * i implies #[trigger] rgba@[k] == colorized(g, palette)[k] by {
                if k < 4 * (i - 1) {
                    assert(g[k / 4] == prev[k / 4]);
                    assert(colorized(prev, palette)[k] == colorized(g, palette)[k]);
                } else {
                    assert(k / 4 == i - 1);
                    assert(g[k / 4] == val);
                }
            }
            assert(rgba@ =~= colorized(g, palette));
        }
    }
    assert(grayscale@.subrange(0, grayscale.len() as int) =~= grayscale@);
    rgba
}

} // verus!
