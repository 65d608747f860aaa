//! Pixel-format choice and frame layout for camera capture through the
//! system camera framework, which delivers either raw 16-bit grayscale or
//! 32-bit BGRA frames.

use vstd::prelude::*;

use crate::text::{contains_text, text_contains};

verus! {

/// Core Video pixel format of 16-bit grayscale frames (four-character code 'b16g').
pub const PIXEL_FORMAT_16_GRAY: u32 = 0x62313667;
/// Core Video pixel format of 32-bit BGRA frames (four-character code 'BGRA').
pub const PIXEL_FORMAT_32_BGRA: u32 = 0x42475241;

/// Width of the Lepton 3.x sensor, assumed until a frame reports otherwise.
pub const DEFAULT_WIDTH: usize = 160;
/// Height of the Lepton 3.x sensor, assumed until a frame reports otherwise.
pub const DEFAULT_HEIGHT: usize = 120;

/// Pixel format received from the camera framework.
#[derive(Debug, Clone, Copy, PartialEq, Eq, Structural)]
pub enum CapturedFormat {
    /// Raw 16-bit grayscale (ideal for radiometry).
    Y16,
    /// 32-bit BGRA (camera's built-in AGC applied).
    BGRA,
}

/// A single captured frame.
pub struct CapturedFrame {
    pub data: Vec<u8>,
    pub width: usize,
    pub height: usize,
    /// The pixel format of this frame (Y16 or BGRA).
    pub format: CapturedFormat,
}

/// Choose the capture format from the pixel formats an output offers:
/// 16-bit gray when it is offered, else BGRA, which is always available.
pub fn choose_pixel_format(available: &[u32]) -> (r: (u32, CapturedFormat))
    ensures
        available@.contains(PIXEL_FORMAT_16_GRAY) ==> r == (PIXEL_FORMAT_16_GRAY, CapturedFormat::Y16),
        !available@.contains(PIXEL_FORMAT_16_GRAY) ==> r == (PIXEL_FORMAT_32_BGRA, CapturedFormat::BGRA),
{
    let mut i: usize = 0;
    while i < available.len()
        invariant
            i <= available.len(),
            forall|k: int| 0 <= k < i ==> available@[k] != PIXEL_FORMAT_16_GRAY,
        decreases available.len() - i,
    {
        if available[i] == PIXEL_FORMAT_16_GRAY {
            return (PIXEL_FORMAT_16_GRAY, CapturedFormat::Y16);
        }
        i += 1;
    }
    (PIXEL_FORMAT_32_BGRA, CapturedFormat::BGRA)
}

/// The format of a delivered frame from its pixel format type: 16-bit gray
/// is Y16, anything else is treated as BGRA.
pub fn captured_format_of(pixel_format: u32) -> (f: CapturedFormat)
    ensures
        f == (if pixel_format == PIXEL_FORMAT_16_GRAY { CapturedFormat::Y16 } else { CapturedFormat::BGRA }),
{
    if pixel_format == PIXEL_FORMAT_16_GRAY {
        CapturedFormat::Y16
    } else {
        CapturedFormat::BGRA
    }
}

/// Bytes per pixel of a captured format: 2 for Y16, 4 for BGRA.
pub fn bytes_per_pixel(format: CapturedFormat) -> (n: usize)
    ensures
        n == (match format {
            CapturedFormat::Y16 => 2usize,
            CapturedFormat::BGRA => 4usize,
        }),
{
    match format {
        CapturedFormat::Y16 => 2,
        CapturedFormat::BGRA => 4,
    }
}

/// The text of `s` in lower case, by the Unicode lowercase mapping.
pub uninterp spec fn unicode_lowercase(s: Seq<char>) -> Seq<char>;

/// Calls `str::to_lowercase` (std). Claimed: the result is a function of
/// the text alone, named `unicode_lowercase`.
#[verifier::external_body]
fn to_lowercase(s: &str) -> (r: String)
    ensures
        r@ == unicode_lowercase(s@),
{
    s.to_lowercase()
}

/// Whether a capture device's localized name is a PureThermal board's:
/// its lower-case form contains "purethermal".
pub fn is_purethermal_name(name: &str) -> (b: bool)
    ensures
        b == text_contains(unicode_lowercase(name@), "purethermal"@),
{
    let lower = to_lowercase(name);
    contains_text(lower.as_str(), "purethermal")
}

} // verus!
