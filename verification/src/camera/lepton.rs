//! Lepton SDK command layer via UVC extension units.
//!
//! The PureThermal board exposes the Lepton's SDK as UVC extension unit controls.
//! Each Lepton module (AGC, SYS, VID, OEM, RAD) maps to a specific extension unit ID,
//! and each command within a module maps to a control ID derived from the command word.
//! This module holds the command mapping and the encoding of attribute words;
//! the transfers themselves are made by the caller.

use vstd::prelude::*;
use vstd::utf8::{decode_utf8, valid_utf8};

use super::types::CameraError;
use crate::text::{hex4, push_hex4};

verus! {

// ---------------------------------------------------------------------------
// Lepton SDK module IDs (upper bytes of command ID)
// ---------------------------------------------------------------------------
pub const LEP_CID_AGC_MODULE: u16 = 0x0100;
pub const LEP_CID_SYS_MODULE: u16 = 0x0200;
pub const LEP_CID_VID_MODULE: u16 = 0x0300;
pub const LEP_CID_OEM_MODULE: u16 = 0x0800;
pub const LEP_CID_RAD_MODULE: u16 = 0x0E00;

// ---------------------------------------------------------------------------
// UVC extension unit IDs for each Lepton module
// ---------------------------------------------------------------------------
pub const VC_CONTROL_XU_LEP_AGC_ID: u8 = 3;
pub const VC_CONTROL_XU_LEP_OEM_ID: u8 = 4;
pub const VC_CONTROL_XU_LEP_RAD_ID: u8 = 5;
pub const VC_CONTROL_XU_LEP_SYS_ID: u8 = 6;
pub const VC_CONTROL_XU_LEP_VID_ID: u8 = 7;

// ---------------------------------------------------------------------------
// AGC Module (0x0100)
// ---------------------------------------------------------------------------
pub const LEP_AGC_ENABLE: u16 = 0x0100;
pub const LEP_AGC_POLICY: u16 = 0x0104;
pub const LEP_AGC_HEQ_DAMPENING_FACTOR: u16 = 0x0124;
pub const LEP_AGC_HEQ_MAX_GAIN: u16 = 0x0128;
pub const LEP_AGC_HEQ_CLIP_LIMIT_HIGH: u16 = 0x012C;
pub const LEP_AGC_HEQ_CLIP_LIMIT_LOW: u16 = 0x0130;
pub const LEP_AGC_HEQ_BIN_EXTENSION: u16 = 0x0134;
pub const LEP_AGC_HEQ_MIDPOINT: u16 = 0x0138;
pub const LEP_AGC_HEQ_EMPTY_COUNTS: u16 = 0x013C;
pub const LEP_AGC_HEQ_NORMALIZATION_FACTOR: u16 = 0x0140;
pub const LEP_AGC_HEQ_SCALE_FACTOR: u16 = 0x0144;
pub const LEP_AGC_CALC_ENABLE: u16 = 0x0148;
pub const LEP_AGC_LINEAR_HISTOGRAM_TAIL_SIZE: u16 = 0x014C;
pub const LEP_AGC_LINEAR_HISTOGRAM_CLIP_PERCENT: u16 = 0x0150;
pub const LEP_AGC_LINEAR_MAX_GAIN: u16 = 0x0154;
pub const LEP_AGC_LINEAR_MIDPOINT: u16 = 0x0158;
pub const LEP_AGC_LINEAR_DAMPENING_FACTOR: u16 = 0x015C;

// ---------------------------------------------------------------------------
// SYS Module (0x0200)
// ---------------------------------------------------------------------------
pub const LEP_SYS_FLIR_SERIAL_NUMBER: u16 = 0x0208;
pub const LEP_SYS_FFC_SHUTTER_MODE: u16 = 0x023C;
/// Run command.
pub const LEP_SYS_FFC_RUN: u16 = 0x0242;
pub const LEP_SYS_GAIN_MODE: u16 = 0x0248;

// ---------------------------------------------------------------------------
// VID Module (0x0300)
// ---------------------------------------------------------------------------
pub const LEP_VID_POLARITY: u16 = 0x0300;
pub const LEP_VID_PCOLOR_LUT: u16 = 0x0304;
pub const LEP_VID_SBNUC_ENABLE: u16 = 0x030C;

// ---------------------------------------------------------------------------
// OEM Module (0x0800)
// ---------------------------------------------------------------------------
pub const LEP_OEM_PART_NUMBER: u16 = 0x081C;
pub const LEP_OEM_SW_VERSION_GPP: u16 = 0x0820;
pub const LEP_OEM_SW_VERSION_DSP: u16 = 0x0824;

// ---------------------------------------------------------------------------
// RAD Module (0x0E00)
// ---------------------------------------------------------------------------
pub const LEP_RAD_TLINEAR_RESOLUTION: u16 = 0x0EC4;
pub const LEP_RAD_SPOTMETER_ROI: u16 = 0x0ECC;
/// Spotmeter object in kelvin (value, max, min, population).
pub const LEP_RAD_SPOTMETER_OBJ_KELVIN: u16 = 0x0ED0;

/// The module bits of a command ID.
pub open spec fn module_of(command_id: u16) -> u16 {
    command_id & 0x3F00
}

/// The extension unit that serves a module, if the module is known.
pub open spec fn unit_of_module(module: u16) -> Option<u8> {
    if module == LEP_CID_AGC_MODULE {
        Some(VC_CONTROL_XU_LEP_AGC_ID)
    } else if module == LEP_CID_SYS_MODULE {
        Some(VC_CONTROL_XU_LEP_SYS_ID)
    } else if module == LEP_CID_VID_MODULE {
        Some(VC_CONTROL_XU_LEP_VID_ID)
    } else if module == LEP_CID_OEM_MODULE {
        Some(VC_CONTROL_XU_LEP_OEM_ID)
    } else if module == LEP_CID_RAD_MODULE {
        Some(VC_CONTROL_XU_LEP_RAD_ID)
    } else {
        None
    }
}

/// Maps a Lepton command ID to the corresponding UVC extension unit ID.
pub fn command_to_unit_id(command_id: u16) -> (r: Result<u8, CameraError>)
    ensures
        match unit_of_module(module_of(command_id)) {
            Some(u) => r == Ok::<u8, CameraError>(u),
            None => r matches Err(CameraError::LeptonError(m))
                && m@ == "Unknown module ID: 0x"@ + hex4(module_of(command_id)),
        },
{
    let module = command_id & 0x3F00;
    if module == LEP_CID_AGC_MODULE {
        Ok(VC_CONTROL_XU_LEP_AGC_ID)
    } else if module == LEP_CID_SYS_MODULE {
        Ok(VC_CONTROL_XU_LEP_SYS_ID)
    } else if module == LEP_CID_VID_MODULE {
        Ok(VC_CONTROL_XU_LEP_VID_ID)
    } else if module == LEP_CID_OEM_MODULE {
        Ok(VC_CONTROL_XU_LEP_OEM_ID)
    } else if module == LEP_CID_RAD_MODULE {
        Ok(VC_CONTROL_XU_LEP_RAD_ID)
    } else {
        let mut msg = String::from_str("Unknown module ID: 0x");
        push_hex4(&mut msg, module);
        Err(CameraError::LeptonError(msg))
    }
}

/// The UVC control ID of a command: `((command_id & 0x00FF) >> 2) + 1`,
/// that is the command's low byte divided by four, plus one.
pub open spec fn control_id_of(command_id: u16) -> u8 {
    ((command_id % 256) / 4 + 1) as u8
}

/// Computes the UVC control ID from a Lepton command ID.
/// Formula: ((command_id & 0x00FF) >> 2) + 1
pub fn command_to_control_id(command_id: u16) -> (c: u8)
    ensures
        c == control_id_of(command_id),
        1 <= c <= 64,
{
    assert(((command_id & 0x00FF) >> 2) == (command_id % 256) / 4) by (bit_vector);
    (((command_id & 0x00FF) >> 2) + 1) as u8
}

/// Little-endian byte image of a sequence of 16-bit words.
pub open spec fn words_to_bytes(ws: Seq<u16>) -> Seq<u8> {
    Seq::new(
        2 * ws.len(),
        |k: int|
            if k % 2 == 0 {
                (ws[k / 2] % 256) as u8
            } else {
                (ws[k / 2] / 256) as u8
            },
    )
}

/// 16-bit words read little-endian from consecutive byte pairs.
pub open spec fn bytes_to_words(bs: Seq<u8>) -> Seq<u16> {
    Seq::new(bs.len() / 2, |i: int| (bs[2 * i] + 256 * bs[2 * i + 1]) as u16)
}

/// Write an attribute payload: each word as two little-endian bytes.
pub fn le_bytes_from_words(words: &[u16]) -> (b: Vec<u8>)
    requires
        words.len() * 2 <= usize::MAX,
    ensures
        b@ == words_to_bytes(words@),
{
    let mut b: Vec<u8> = Vec::with_capacity(words.len() * 2);
    let mut i: usize = 0;
    while i < words.len()
        invariant
            i <= words.len(),
            words.len() * 2 <= usize::MAX,
            b@ == words_to_bytes(words@.subrange(0, i as int)),
        decreases words.len() - i,
    {
        let w = words[i];
        b.push((w % 256) as u8);
        b.push((w / 256) as u8);
        i += 1;
        proof {
            let ws = words@.subrange(0, i as int);
            let prev = words@.subrange(0, i - 1);
            assert forall|k: int| 0 <= k < 2 * i implies #[trigger] b@[k] == words_to_bytes(ws)[k] by {
                if k < 2 * (i - 1) {
                    assert(ws[k / 2] == prev[k / 2]);
                    assert(words_to_bytes(prev)[k] == words_to_bytes(ws)[k]);
                } else {
                    assert(k / 2 == i - 1);
                }
            }
            assert(b@ =~= words_to_bytes(ws));
        }
    }
    assert(words@.subrange(0, words.len() as int) =~= words@);
    b
}

/// Read attribute words from a little-endian byte buffer of even length.
pub fn words_from_le_bytes(buf: &[u8]) -> (w: Vec<u16>)
    requires
        buf.len() % 2 == 0,
    ensures
        w@ == bytes_to_words(buf@),
{
    let n = buf.len() / 2;
    let mut w: Vec<u16> = Vec::with_capacity(n);
    let mut i: usize = 0;
    while i < n
        invariant
            i <= n,
            n == buf.len() / 2,
            buf.len() % 2 == 0,
            w.len() == i,
            forall|k: int| 0 <= k < i ==> w@[k] == #[trigger] bytes_to_words(buf@)[k],
        decreases n - i,
    {
        w.push(buf[2 * i] as u16 + 256 * (buf[2 * i + 1] as u16));
        i += 1;
    }
    assert(w@ =~= bytes_to_words(buf@));
    w
}

/// Reading back the bytes of written words gives the words.
pub proof fn words_bytes_roundtrip(ws: Seq<u16>)
    ensures
        bytes_to_words(words_to_bytes(ws)) == ws,
{
    let bs = words_to_bytes(ws);
    assert forall|i: int| 0 <= i < ws.len() implies #[trigger] bytes_to_words(bs)[i] == ws[i] by {
        assert((2 * i) / 2 == i);
        assert((2 * i + 1) / 2 == i);
        assert((2 * i) % 2 == 0);
        assert((2 * i + 1) % 2 == 1);
    }
    assert(bytes_to_words(bs) =~= ws);
}

/// Writing back the words read from an even-length buffer gives the buffer.
pub proof fn bytes_words_roundtrip(bs: Seq<u8>)
    requires
        bs.len() % 2 == 0,
    ensures
        words_to_bytes(bytes_to_words(bs)) == bs,
{
    let ws = bytes_to_words(bs);
    assert forall|k: int| 0 <= k < bs.len() implies #[trigger] words_to_bytes(ws)[k] == bs[k] by {
        let i = k / 2;
        if k % 2 == 0 {
            assert(k == 2 * i);
        } else {
            assert(k == 2 * i + 1);
        }
    }
    assert(words_to_bytes(ws) =~= bs);
}

/// The 64-bit serial number held in four words, least significant first.
pub open spec fn serial_of(w0: u16, w1: u16, w2: u16, w3: u16) -> int {
    w0 + 65536 * w1 + 4294967296 * w2 + 281474976710656 * w3
}

/// Assemble the FLIR serial number from its four words (64-bit, least
/// significant word first).
pub fn serial_from_words(words: &[u16]) -> (s: u64)
    requires
        words.len() >= 4,
    ensures
        s == serial_of(words@[0], words@[1], words@[2], words@[3]),
{
    (words[3] as u64) * 281474976710656 + (words[2] as u64) * 4294967296 + (words[1] as u64) * 65536
        + (words[0] as u64)
}

/// The spotmeter region of interest held in four words
/// (start row, start column, end row, end column).
pub fn roi_from_words(words: &[u16]) -> (roi: [u16; 4])
    requires
        words.len() >= 4,
    ensures
        roi@ == words@.subrange(0, 4),
{
    let roi = [words[0], words[1], words[2], words[3]];
    assert(roi@ =~= words@.subrange(0, 4));
    roi
}

/// The word that encodes an on/off setting: 1 for on, 0 for off.
pub fn flag_word(enable: bool) -> (w: u16)
    ensures
        w == (if enable { 1u16 } else { 0u16 }),
{
    if enable { 1 } else { 0 }
}

/// An on/off setting read back: any non-zero word means on.
pub fn flag_from_word(w: u16) -> (b: bool)
    ensures
        b == (w != 0),
{
    w != 0
}

/// Whether a spotmeter reading is in centikelvin rather than decikelvin.
/// A non-zero TLinear resolution selects 0.01 K; a raw value above 10000
/// is taken as 0.01 K too, since at 0.1 K it would be above 700 °C.
pub fn spot_is_centikelvin(spot_raw: u16, resolution: u16) -> (c: bool)
    ensures
        c == (spot_raw > 10000 || resolution != 0),
{
    spot_raw > 10000 || resolution != 0
}

/// The text of `bytes` decoded as UTF-8, with each invalid sequence
/// replaced by U+FFFD.
pub uninterp spec fn utf8_lossy(bytes: Seq<u8>) -> Seq<char>;

/// Calls `String::from_utf8_lossy` (std) and takes ownership of the text.
/// Claimed: the result is a function of the bytes alone, named
/// `utf8_lossy`; on valid UTF-8 it is the decoded text.
#[verifier::external_body]
fn string_from_utf8_lossy(bytes: &[u8]) -> (s: String)
    ensures
        s@ == utf8_lossy(bytes@),
        valid_utf8(bytes@) ==> s@ == decode_utf8(bytes@),
{
    String::from_utf8_lossy(bytes).into_owned()
}

/// `s` without its trailing NUL characters.
pub open spec fn trim_trailing_nuls(s: Seq<char>) -> Seq<char>
    decreases s.len(),
{
    if s.len() > 0 && s.last() == '\0' {
        trim_trailing_nuls(s.drop_last())
    } else {
        s
    }
}

proof fn lemma_trim_is_prefix(s: Seq<char>, end: int)
    requires
        0 <= end <= s.len(),
        forall|k: int| end <= k < s.len() ==> s[k] == '\0',
    ensures
        trim_trailing_nuls(s) == trim_trailing_nuls(s.subrange(0, end)),
    decreases s.len() - end,
{
    if end < s.len() {
        assert(s.drop_last() =~= s.subrange(0, s.len() - 1));
        lemma_trim_is_prefix(s.drop_last(), end);
        assert(s.drop_last().subrange(0, end) =~= s.subrange(0, end));
    } else {
        assert(s.subrange(0, end) =~= s);
    }
}

/// Text with its trailing NUL characters removed.
pub fn trim_nuls(s: &str) -> (r: String)
    ensures
        r@ == trim_trailing_nuls(s@),
{
    let mut end = s.unicode_len();
    while end > 0 && s.get_char(end - 1) == '\0'
        invariant
            end <= s@.len(),
            forall|k: int| end <= k < s@.len() ==> s@[k] == '\0',
        decreases end,
    {
        end -= 1;
    }
    proof {
        lemma_trim_is_prefix(s@, end as int);
        let t = s@.subrange(0, end as int);
        assert(!(t.len() > 0 && t.last() == '\0'));
    }
    String::from_str(s.substring_char(0, end))
}

/// The OEM part number held in `words`: their little-endian bytes decoded
/// as (lossy) UTF-8, without trailing NULs.
pub fn part_number_from_words(words: &[u16]) -> (s: String)
    requires
        words.len() * 2 <= usize::MAX,
    ensures
        s@ == trim_trailing_nuls(utf8_lossy(words_to_bytes(words@))),
{
    let bytes = le_bytes_from_words(words);
    let text = string_from_utf8_lossy(bytes.as_slice());
    trim_nuls(text.as_str())
}

} // verus!
