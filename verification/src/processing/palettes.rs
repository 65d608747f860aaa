//! Colour palettes: 256-entry RGB lookup tables indexed by an 8-bit level.

use vstd::prelude::*;

verus! {

/// The colour palettes offered for display.
#[derive(Debug, Clone, Copy, PartialEq, Eq, Structural)]
pub enum Palette {
    /// Black through purple, red and yellow to white (FLIR-style iron).
    IronBlack,
    /// Blue through cyan, green and yellow to red.
    Rainbow,
    /// Linear grey ramp.
    Grayscale,
}

/// The colour of level `v` in palette `p`, as red, green and blue.
pub open spec fn palette_rgb(p: Palette, v: u8) -> (u8, u8, u8) {
    let x = v as int;
    match p {
        Palette::Grayscale => (v, v, v),
        Palette::IronBlack => {
            if x < 64 {
                ((2 * x) as u8, 0u8, (2 * x) as u8)
            } else if x < 128 {
                ((2 * x) as u8, 0u8, (256 - 2 * x) as u8)
            } else if x < 192 {
                (255u8, (4 * (x - 128)) as u8, 0u8)
            } else {
                (255u8, 255u8, (4 * (x - 192)) as u8)
            }
        },
        Palette::Rainbow => {
            if x < 64 {
                (0u8, (4 * x) as u8, 255u8)
            } else if x < 128 {
                (0u8, 255u8, (255 - 4 * (x - 64)) as u8)
            } else if x < 192 {
                ((4 * (x - 128)) as u8, 255u8, 0u8)
            } else {
                (255u8, (255 - 4 * (x - 192)) as u8, 0u8)
            }
        },
    }
}

/// The colour of level `v` in palette `p`.
pub fn palette_color(p: Palette, v: u8) -> (c: (u8, u8, u8))
    ensures
        c == palette_rgb(p, v),
{
    match p {
        Palette::Grayscale => (v, v, v),
        Palette::IronBlack => {
            if v < 64 {
                (2 * v, 0, 2 * v)
            } else if v < 128 {
                (2 * v, 0, (256 - 2 * (v as u16)) as u8)
            } else if v < 192 {
                (255, 4 * (v - 128), 0)
            } else {
                (255, 255, 4 * (v - 192))
            }
        },
        Palette::Rainbow => {
            if v < 64 {
                (0, 4 * v, 255)
            } else if v < 128 {
                (0, 255, 255 - 4 * (v - 64))
            } else if v < 192 {
                (4 * (v - 128), 255, 0)
            } else {
                (255, 255 - 4 * (v - 192), 0)
            }
        },
    }
}

/// The lookup table of a palette: red, green and blue of level `v` at
/// indices `3v`, `3v + 1` and `3v + 2`.
pub fn get_palette(p: Palette) -> (lut: Vec<u8>)
    ensures
        lut.len() == 768,
        forall|v: u8|
            #![trigger palette_rgb(p, v)]
            lut@[3 * v] == palette_rgb(p, v).0 && lut@[3 * v + 1] == palette_rgb(p, v).1
                && lut@[3 * v + 2] == palette_rgb(p, v).2,
{
    let mut lut: Vec<u8> = Vec::with_capacity(768);
    let mut v: u16 = 0;
    while v < 256
        invariant
            v <= 256,
            lut.len() == 3 * v,
            forall|u: u8|
                #![trigger palette_rgb(p, u)]
                u < v ==> lut@[3 * u] == palette_rgb(p, u).0 && lut@[3 * u + 1] == palette_rgb(p, u).1
                    && lut@[3 * u + 2] == palette_rgb(p, u).2,
        decreases 256 - v,
    {
        let c = palette_color(p, v as u8);
        lut.push(c.0);
        lut.push(c.1);
        lut.push(c.2);
        v += 1;
    }
    lut
}

} // verus!
