//! What the user interface receives: a processed frame as an event with
//! Base64-encoded RGBA pixels, and palettes chosen by name.

use vstd::prelude::*;

use crate::processing::palettes::Palette;
use crate::processing::FrameResult;
use crate::text::text_equals;
use base64::Engine;

verus! {

/// A processed frame as delivered to the user interface.
#[derive(Clone, Debug)]
pub struct FrameEvent {
    /// RGBA pixels, Base64-encoded (standard alphabet, padded).
    pub data: String,
    /// Width of the image in pixels.
    pub width: usize,
    /// Height of the image in pixels.
    pub height: usize,
    /// Minimum raw value of the frame.
    pub min_val: u16,
    /// Maximum raw value of the frame.
    pub max_val: u16,
}

/// Character of a 6-bit value in the standard Base64 alphabet
/// `A-Z a-z 0-9 + /`.
pub open spec fn base64_char(v: int) -> char {
    if v < 26 {
        (65 + v) as char
    } else if v < 52 {
        (97 + (v - 26)) as char
    } else if v < 62 {
        (48 + (v - 52)) as char
    } else if v == 62 {
        '+'
    } else {
        '/'
    }
}

/// Standard Base64 (RFC 4648, section 4) of `b`: every three bytes become
/// four characters; a final group of one or two bytes is padded with `=`.
pub open spec fn base64_standard(b: Seq<u8>) -> Seq<char>
    decreases b.len(),
{
    if b.len() == 0 {
        Seq::empty()
    } else if b.len() == 1 {
        seq![base64_char(b[0] as int / 4), base64_char((b[0] % 4) * 16), '=', '=']
    } else if b.len() == 2 {
        seq![
            base64_char(b[0] as int / 4),
            base64_char((b[0] % 4) * 16 + b[1] / 16),
            base64_char((b[1] % 16) * 4),
            '=',
        ]
    } else {
        seq![
            base64_char(b[0] as int / 4),
            base64_char((b[0] % 4) * 16 + b[1] / 16),
            base64_char((b[1] % 16) * 4 + b[2] / 64),
            base64_char(b[2] as int % 64),
        ] + base64_standard(b.subrange(3, b.len() as int))
    }
}

/// Calls `base64::Engine::encode` on `base64::engine::general_purpose::STANDARD`.
/// Claimed: the result is the standard, padded Base64 text of the bytes.
/// The crate panics when the encoded length does not fit in `usize`,
/// which `requires` rules out.
#[verifier::external_body]
fn base64_encode(data: &[u8]) -> (s: String)
    requires
        4 * ((data.len() + 2) / 3) <= usize::MAX,
    ensures
        s@ == base64_standard(data@),
{
    base64::engine::general_purpose::STANDARD.encode(data)
}

/// The event for a processed frame: its RGBA pixels in Base64, its size
/// and the raw range of the frame.
pub fn frame_event(result: &FrameResult) -> (e: FrameEvent)
    requires
        4 * ((result.rgba.len() + 2) / 3) <= usize::MAX,
    ensures
        e.data@ == base64_standard(result.rgba@),
        e.width == result.width,
        e.height == result.height,
        e.min_val == result.stats.min_val,
        e.max_val == result.stats.max_val,
{
    FrameEvent {
        data: base64_encode(result.rgba.as_slice()),
        width: result.width,
        height: result.height,
        min_val: result.stats.min_val,
        max_val: result.stats.max_val,
    }
}

/// The palette called `name`: "ironblack", "rainbow" or "grayscale".
pub fn palette_from_name(name: &str) -> (r: Result<Palette, String>)
    ensures
        name@ == "ironblack"@ ==> r == Ok::<Palette, String>(Palette::IronBlack),
        name@ == "rainbow"@ ==> r == Ok::<Palette, String>(Palette::Rainbow),
        name@ == "grayscale"@ ==> r == Ok::<Palette, String>(Palette::Grayscale),
        name@ != "ironblack"@ && name@ != "rainbow"@ && name@ != "grayscale"@ ==> (r matches Err(m)
            && m@ == "Unknown palette: "@ + name@),
{
    proof {
        reveal_strlit("ironblack");
        reveal_strlit("rainbow");
        reveal_strlit("grayscale");
        assert("rainbow"@[0] != "ironblack"@[0]);
        assert("grayscale"@[0] != "ironblack"@[0]);
        assert("grayscale"@[0] != "rainbow"@[0]);
    }
    if text_equals(name, "ironblack") {
        Ok(Palette::IronBlack)
    } else if text_equals(name, "rainbow") {
        Ok(Palette::Rainbow)
    } else if text_equals(name, "grayscale") {
        Ok(Palette::Grayscale)
    } else {
        Err(String::from_str("Unknown palette: ").concat(name))
    }
}

} // verus!
