//! UVC descriptor parsing for Y16 (16-bit greyscale) video format detection.
//!
//! Parses raw USB configuration descriptors to locate the Video Streaming
//! interface, Y16 uncompressed format, frame dimensions, and isochronous
//! endpoint needed to set up isochronous USB transfers.

use vstd::prelude::*;

use crate::text::{decimal, push_decimal};

verus! {

/// GUID for Y16 (16-bit greyscale) pixel format.
/// Matches the USB Video Class "Y16 " format GUID.
pub const Y16_GUID: [u8; 16] = [
    0x59, 0x31, 0x36, 0x20, // "Y16 "
    0x00, 0x00, 0x10, 0x00,
    0x80, 0x00, 0x00, 0xAA,
    0x00, 0x38, 0x9B, 0x71,
];

/// VS_FORMAT_UNCOMPRESSED descriptor subtype.
pub const VS_FORMAT_UNCOMPRESSED: u8 = 0x04;

/// VS_FRAME_UNCOMPRESSED descriptor subtype.
pub const VS_FRAME_UNCOMPRESSED: u8 = 0x05;

/// Standard interface descriptor type.
pub const DESC_INTERFACE: u8 = 0x04;
/// Standard endpoint descriptor type.
pub const DESC_ENDPOINT: u8 = 0x05;
/// Class-specific interface descriptor type.
pub const DESC_CS_INTERFACE: u8 = 0x24;
/// USB Video interface class.
pub const CC_VIDEO: u8 = 0x0E;
/// USB Video streaming interface subclass.
pub const SC_VIDEOSTREAMING: u8 = 0x02;

/// Parsed UVC streaming configuration for Y16 video.
#[derive(Debug, Clone, Copy, PartialEq, Eq)]
pub struct UvcStreamConfig {
    /// VideoStreaming interface number.
    pub vs_interface_num: u8,
    /// Format index within the VS interface.
    pub format_index: u8,
    /// Frame index within the format.
    pub frame_index: u8,
    /// Frame width in pixels.
    pub width: u16,
    /// Frame height in pixels.
    pub height: u16,
    /// Default frame interval in 100 ns units.
    pub frame_interval: u32,
    /// Alternate setting that has the isochronous endpoint.
    pub alt_setting: u8,
    /// Endpoint address (IN, isochronous).
    pub endpoint_addr: u8,
    /// Raw wMaxPacketSize from the endpoint descriptor.
    pub max_packet_size: u16,
    /// Bits per pixel from the format descriptor.
    pub bits_per_pixel: u8,
}

/// Effective packet size encoded by a raw wMaxPacketSize: the low eleven
/// bits times one plus the additional-transaction count in bits 12:11.
pub open spec fn effective_packet_size(raw: u16) -> int {
    (raw & 0x7FF) * (((raw >> 11) & 3) + 1)
}

impl UvcStreamConfig {
    /// Compute the effective maximum packet size, accounting for
    /// high-bandwidth high-speed isochronous transactions.
    ///
    /// USB 2.0 encodes additional transactions in bits 12:11 of
    /// wMaxPacketSize: effective = (wMaxPacketSize & 0x7FF) * (((wMaxPacketSize >> 11) & 3) + 1)
    pub fn effective_max_packet(&self) -> (r: u16)
        ensures
            r == effective_packet_size(self.max_packet_size),
    {
        let m = self.max_packet_size;
        assert(m & 0x7FF <= 0x7FF) by (bit_vector);
        assert((m >> 11) & 3 <= 3) by (bit_vector);
        let lo = m & 0x7FF;
        let mult = (m >> 11 & 3) + 1;
        assert(lo * mult <= 8188) by (nonlinear_arith)
            requires
                lo <= 0x7FF,
                mult <= 4,
        ;
        lo * mult
    }
}

/// Little-endian value of two bytes.
pub open spec fn le_u16(b0: u8, b1: u8) -> u16 {
    (b0 + 256 * b1) as u16
}

/// Little-endian value of four bytes.
pub open spec fn le_u32(b0: u8, b1: u8, b2: u8, b3: u8) -> u32 {
    (b0 + 256 * b1 + 65536 * b2 + 16777216 * b3) as u32
}

/// What has been learned so far while walking a descriptor chain.
#[derive(Clone, Copy)]
pub struct DescriptorScan {
    /// The most recent interface descriptor is a VideoStreaming interface.
    pub in_vs_interface: bool,
    /// Number of the most recent interface.
    pub current_iface_num: u8,
    /// Alternate setting of the most recent interface.
    pub current_alt_setting: u8,
    /// Interface that holds the Y16 format.
    pub vs_interface_num: Option<u8>,
    /// Index of the Y16 format.
    pub format_index: Option<u8>,
    /// Bits per pixel of the Y16 format.
    pub bits_per_pixel: Option<u8>,
    /// Index of the first frame descriptor after the Y16 format.
    pub frame_index: Option<u8>,
    /// Width of that frame.
    pub width: Option<u16>,
    /// Height of that frame.
    pub height: Option<u16>,
    /// Default interval of that frame.
    pub frame_interval: Option<u32>,
    /// Alternate setting of the best isochronous IN endpoint so far.
    pub best_alt_setting: Option<u8>,
    /// Address of the best isochronous IN endpoint so far.
    pub best_endpoint_addr: Option<u8>,
    /// Largest raw wMaxPacketSize seen so far (zero when none).
    pub best_max_packet_size: u16,
}

/// The state before the first descriptor.
pub open spec fn scan_start() -> DescriptorScan {
    DescriptorScan {
        in_vs_interface: false,
        current_iface_num: 0,
        current_alt_setting: 0,
        vs_interface_num: None,
        format_index: None,
        bits_per_pixel: None,
        frame_index: None,
        width: None,
        height: None,
        frame_interval: None,
        best_alt_setting: None,
        best_endpoint_addr: None,
        best_max_packet_size: 0,
    }
}

/// A whole descriptor starts at `pos`: its length byte and type byte are
/// present, the length is at least two and it ends within the blob.
pub open spec fn descriptor_fits(d: Seq<u8>, pos: int) -> bool {
    &&& 0 <= pos
    &&& pos + 1 < d.len()
    &&& d[pos] >= 2
    &&& pos + d[pos] <= d.len()
}

/// The state after the descriptor at `pos`.
pub open spec fn scan_step(d: Seq<u8>, pos: int, st: DescriptorScan) -> DescriptorScan {
    let len = d[pos] as int;
    let ty = d[pos + 1];
    if ty == DESC_INTERFACE && len >= 9 {
        DescriptorScan {
            current_iface_num: d[pos + 2],
            current_alt_setting: d[pos + 3],
            in_vs_interface: d[pos + 5] == CC_VIDEO && d[pos + 6] == SC_VIDEOSTREAMING,
            ..st
        }
    } else if ty == DESC_CS_INTERFACE && st.in_vs_interface && len >= 3 {
        let subtype = d[pos + 2];
        if subtype == VS_FORMAT_UNCOMPRESSED && len >= 27 {
            if d.subrange(pos + 5, pos + 21) == Y16_GUID@ {
                DescriptorScan {
                    format_index: Some(d[pos + 3]),
                    bits_per_pixel: Some(d[pos + 21]),
                    vs_interface_num: Some(st.current_iface_num),
                    ..st
                }
            } else {
                st
            }
        } else if subtype == VS_FRAME_UNCOMPRESSED && len >= 26 {
            if st.format_index is Some && st.frame_index is None {
                DescriptorScan {
                    frame_index: Some(d[pos + 3]),
                    width: Some(le_u16(d[pos + 5], d[pos + 6])),
                    height: Some(le_u16(d[pos + 7], d[pos + 8])),
                    frame_interval: Some(le_u32(d[pos + 21], d[pos + 22], d[pos + 23], d[pos + 24])),
                    ..st
                }
            } else {
                st
            }
        } else {
            st
        }
    } else if ty == DESC_ENDPOINT && st.in_vs_interface && st.current_alt_setting > 0 && len >= 7
        && st.vs_interface_num == Some(st.current_iface_num) {
        let ep_addr = d[pos + 2];
        let attributes = d[pos + 3];
        let max_pkt = le_u16(d[pos + 4], d[pos + 5]);
        if ep_addr & 0x80 != 0 && attributes & 0x03 == 0x01 && max_pkt > st.best_max_packet_size {
            DescriptorScan {
                best_max_packet_size: max_pkt,
                best_alt_setting: Some(st.current_alt_setting),
                best_endpoint_addr: Some(ep_addr),
                ..st
            }
        } else {
            st
        }
    } else {
        st
    }
}

/// The state after walking the descriptors from `pos` until one does not fit.
pub open spec fn scan(d: Seq<u8>, pos: int, st: DescriptorScan) -> DescriptorScan
    decreases d.len() - pos,
{
    if descriptor_fits(d, pos) {
        scan(d, pos + d[pos], scan_step(d, pos, st))
    } else {
        st
    }
}

/// Where the walk from `pos` stops: the first position at which no whole
/// descriptor starts. A well-formed blob is walked to its very end.
pub open spec fn scan_end(d: Seq<u8>, pos: int) -> int
    decreases d.len() - pos,
{
    if descriptor_fits(d, pos) {
        scan_end(d, pos + d[pos])
    } else {
        pos
    }
}

/// The message for a blob whose walk stops before its end.
pub open spec fn malformed_message(pos: int) -> Seq<char> {
    "Malformed descriptor at offset "@ + decimal(pos as nat)
}

/// The message for the first field that the walk did not find, if any.
pub open spec fn scan_error(st: DescriptorScan) -> Option<Seq<char>> {
    if st.format_index is None {
        Some("Y16 format descriptor not found"@)
    } else if st.bits_per_pixel is None {
        Some("bits_per_pixel not found"@)
    } else if st.vs_interface_num is None {
        Some("VideoStreaming interface not found"@)
    } else if st.frame_index is None {
        Some("frame descriptor not found"@)
    } else if st.width is None {
        Some("frame width not found"@)
    } else if st.height is None {
        Some("frame height not found"@)
    } else if st.frame_interval is None {
        Some("frame interval not found"@)
    } else if st.best_alt_setting is None {
        Some("isochronous endpoint not found"@)
    } else if st.best_endpoint_addr is None {
        Some("isochronous endpoint address not found"@)
    } else {
        None
    }
}

/// The configuration that a complete walk describes.
pub open spec fn scan_config(st: DescriptorScan) -> UvcStreamConfig {
    UvcStreamConfig {
        vs_interface_num: st.vs_interface_num->0,
        format_index: st.format_index->0,
        frame_index: st.frame_index->0,
        width: st.width->0,
        height: st.height->0,
        frame_interval: st.frame_interval->0,
        alt_setting: st.best_alt_setting->0,
        endpoint_addr: st.best_endpoint_addr->0,
        max_packet_size: st.best_max_packet_size,
        bits_per_pixel: st.bits_per_pixel->0,
    }
}

/// What parsing a whole configuration descriptor blob gives.
pub open spec fn spec_parse_uvc_config(d: Seq<u8>) -> Result<UvcStreamConfig, Seq<char>> {
    let st = scan(d, 0, scan_start());
    let end = scan_end(d, 0);
    if end != d.len() {
        Err(malformed_message(end))
    } else {
        match scan_error(st) {
            Some(m) => Err(m),
            None => Ok(scan_config(st)),
        }
    }
}

fn fits(d: &[u8], pos: usize) -> (r: bool)
    ensures
        r == descriptor_fits(d@, pos as int),
{
    pos < d.len() && d.len() - pos > 1 && d[pos] >= 2 && (d[pos] as usize) <= d.len() - pos
}

fn guid_matches(d: &[u8], start: usize) -> (r: bool)
    requires
        start + 16 <= d.len(),
    ensures
        r == (d@.subrange(start as int, start + 16) == Y16_GUID@),
{
    let guid = Y16_GUID;
    let mut i: usize = 0;
    while i < 16
        invariant
            i <= 16,
            start + 16 <= d.len(),
            guid@ == Y16_GUID@,
            forall|k: int| 0 <= k < i ==> d@[start + k] == guid@[k],
        decreases 16 - i,
    {
        if d[start + i] != guid[i] {
            assert(d@.subrange(start as int, start + 16)[i as int] != Y16_GUID@[i as int]);
            return false;
        }
        i += 1;
    }
    assert(d@.subrange(start as int, start + 16) =~= Y16_GUID@);
    true
}

fn step(d: &[u8], pos: usize, st: DescriptorScan) -> (r: DescriptorScan)
    requires
        descriptor_fits(d@, pos as int),
    ensures
        r == scan_step(d@, pos as int, st),
{
    let b_length = d[pos] as usize;
    let ty = d[pos + 1];
    if ty == DESC_INTERFACE && b_length >= 9 {
        DescriptorScan {
            current_iface_num: d[pos + 2],
            current_alt_setting: d[pos + 3],
            in_vs_interface: d[pos + 5] == CC_VIDEO && d[pos + 6] == SC_VIDEOSTREAMING,
            ..st
        }
    } else if ty == DESC_CS_INTERFACE && st.in_vs_interface && b_length >= 3 {
        let subtype = d[pos + 2];
        if subtype == VS_FORMAT_UNCOMPRESSED && b_length >= 27 {
            if guid_matches(d, pos + 5) {
                DescriptorScan {
                    format_index: Some(d[pos + 3]),
                    bits_per_pixel: Some(d[pos + 21]),
                    vs_interface_num: Some(st.current_iface_num),
                    ..st
                }
            } else {
                st
            }
        } else if subtype == VS_FRAME_UNCOMPRESSED && b_length >= 26 {
            if st.format_index.is_some() && st.frame_index.is_none() {
                let w: u16 = d[pos + 5] as u16 + 256 * (d[pos + 6] as u16);
                let h: u16 = d[pos + 7] as u16 + 256 * (d[pos + 8] as u16);
                let interval: u32 = d[pos + 21] as u32 + 256 * (d[pos + 22] as u32)
                    + 65536 * (d[pos + 23] as u32) + 16777216 * (d[pos + 24] as u32);
                DescriptorScan {
                    frame_index: Some(d[pos + 3]),
                    width: Some(w),
                    height: Some(h),
                    frame_interval: Some(interval),
                    ..st
                }
            } else {
                st
            }
        } else {
            st
        }
    } else if ty == DESC_ENDPOINT && st.in_vs_interface && st.current_alt_setting > 0
        && b_length >= 7 && st.vs_interface_num == Some(st.current_iface_num) {
        let ep_addr = d[pos + 2];
        let attributes = d[pos + 3];
        // IN endpoint (bit 7 set) and isochronous (bits 1:0 == 01)
        let is_in = (ep_addr & 0x80) != 0;
        let is_isoch = (attributes & 0x03) == 0x01;
        let max_pkt: u16 = d[pos + 4] as u16 + 256 * (d[pos + 5] as u16);
        // Pick the endpoint with the largest max packet size
        if is_in && is_isoch && max_pkt > st.best_max_packet_size {
            DescriptorScan {
                best_max_packet_size: max_pkt,
                best_alt_setting: Some(st.current_alt_setting),
                best_endpoint_addr: Some(ep_addr),
                ..st
            }
        } else {
            st
        }
    } else {
        st
    }
}

/// Parse a raw USB configuration descriptor blob and extract the Y16
/// UVC streaming configuration.
///
/// Returns `Err` if no Y16 format is found or the descriptor is malformed:
/// a descriptor shorter than two bytes or running past the end of the
/// blob, or a stray byte after the last descriptor, is reported with its
/// offset.
pub fn parse_uvc_config(descriptor: &[u8]) -> (r: Result<UvcStreamConfig, String>)
    ensures
        match spec_parse_uvc_config(descriptor@) {
            Ok(c) => r == Ok::<UvcStreamConfig, String>(c),
            Err(m) => r matches Err(e) && e@ == m,
        },
{
    let mut st = DescriptorScan {
        in_vs_interface: false,
        current_iface_num: 0,
        current_alt_setting: 0,
        vs_interface_num: None,
        format_index: None,
        bits_per_pixel: None,
        frame_index: None,
        width: None,
        height: None,
        frame_interval: None,
        best_alt_setting: None,
        best_endpoint_addr: None,
        best_max_packet_size: 0,
    };
    let mut pos: usize = 0;
    while fits(descriptor, pos)
        invariant
            pos <= descriptor.len(),
            scan(descriptor@, 0, scan_start()) == scan(descriptor@, pos as int, st),
            scan_end(descriptor@, 0) == scan_end(descriptor@, pos as int),
        decreases descriptor.len() - pos,
    {
        st = step(descriptor, pos, st);
        pos += descriptor[pos] as usize;
    }
    if pos != descriptor.len() {
        let mut msg = String::from_str("Malformed descriptor at offset ");
        push_decimal(&mut msg, pos as u64);
        return Err(msg);
    }

    // Assemble the result, requiring all fields to be present
    let format_idx = match st.format_index {
        Some(v) => v,
        None => return Err(String::from_str("Y16 format descriptor not found")),
    };
    let bpp = match st.bits_per_pixel {
        Some(v) => v,
        None => return Err(String::from_str("bits_per_pixel not found")),
    };
    let vs_iface = match st.vs_interface_num {
        Some(v) => v,
        None => return Err(String::from_str("VideoStreaming interface not found")),
    };
    let f_index = match st.frame_index {
        Some(v) => v,
        None => return Err(String::from_str("frame descriptor not found")),
    };
    let w = match st.width {
        Some(v) => v,
        None => return Err(String::from_str("frame width not found")),
    };
    let h = match st.height {
        Some(v) => v,
        None => return Err(String::from_str("frame height not found")),
    };
    let interval = match st.frame_interval {
        Some(v) => v,
        None => return Err(String::from_str("frame interval not found")),
    };
    let alt = match st.best_alt_setting {
        Some(v) => v,
        None => return Err(String::from_str("isochronous endpoint not found")),
    };
    let ep_addr = match st.best_endpoint_addr {
        Some(v) => v,
        None => return Err(String::from_str("isochronous endpoint address not found")),
    };

    Ok(UvcStreamConfig {
        vs_interface_num: vs_iface,
        format_index: format_idx,
        frame_index: f_index,
        width: w,
        height: h,
        frame_interval: interval,
        alt_setting: alt,
        endpoint_addr: ep_addr,
        max_packet_size: st.best_max_packet_size,
        bits_per_pixel: bpp,
    })
}

/// What the walk keeps true: an endpoint is recorded only together with
/// its alternate setting, and only an isochronous IN endpoint of a
/// non-zero alternate setting with a non-zero packet size; a frame is
/// recorded only after the Y16 format.
pub open spec fn scan_consistent(st: DescriptorScan) -> bool {
    &&& (st.best_alt_setting is Some <==> st.best_endpoint_addr is Some)
    &&& st.best_alt_setting is Some ==> {
        &&& st.best_alt_setting->0 > 0
        &&& st.best_max_packet_size > 0
        &&& st.best_endpoint_addr->0 & 0x80 != 0
    }
    &&& st.best_alt_setting is None ==> st.best_max_packet_size == 0
    &&& st.frame_index is Some ==> st.format_index is Some
    &&& (st.format_index is Some <==> st.vs_interface_num is Some)
    &&& (st.format_index is Some <==> st.bits_per_pixel is Some)
    &&& (st.frame_index is Some <==> st.width is Some)
    &&& (st.frame_index is Some <==> st.height is Some)
    &&& (st.frame_index is Some <==> st.frame_interval is Some)
}

proof fn lemma_scan_consistent(d: Seq<u8>, pos: int, st: DescriptorScan)
    requires
        scan_consistent(st),
    ensures
        scan_consistent(scan(d, pos, st)),
    decreases d.len() - pos,
{
    if descriptor_fits(d, pos) {
        lemma_scan_consistent(d, pos + d[pos], scan_step(d, pos, st));
    }
}

/// A successful parse names a usable isochronous IN endpoint: on a
/// non-zero alternate setting, with the direction bit set and a non-zero
/// packet size. A failed parse reports where the blob is malformed, or
/// the Y16 format, the frame descriptor or the endpoint as missing.
pub proof fn parse_result_is_usable(d: Seq<u8>)
    ensures
        spec_parse_uvc_config(d) matches Ok(c) ==> {
            &&& scan_end(d, 0) == d.len()
            &&& c.alt_setting > 0
            &&& c.max_packet_size > 0
            &&& c.endpoint_addr & 0x80 != 0
        },
        spec_parse_uvc_config(d) matches Err(m) ==> {
            ||| m == malformed_message(scan_end(d, 0))
            ||| m == "Y16 format descriptor not found"@
            ||| m == "frame descriptor not found"@
            ||| m == "isochronous endpoint not found"@
        },
{
    lemma_scan_consistent(d, 0, scan_start());
}

/// A raw wMaxPacketSize without additional-transaction bits is its own
/// effective packet size.
pub proof fn plain_packet_size_is_effective(raw: u16)
    requires
        raw < 2048,
    ensures
        effective_packet_size(raw) == raw,
{
    assert(raw & 0x7FF == raw && (raw >> 11) & 3 == 0) by (bit_vector)
        requires
            raw < 2048,
    ;
}

/// Walking the descriptor chain from `a` (each whole descriptor followed
/// by the next) arrives at position `b`.
pub open spec fn walk_reaches(d: Seq<u8>, a: int, b: int) -> bool
    decreases d.len() - a,
{
    if a == b {
        true
    } else if descriptor_fits(d, a) && a < b {
        walk_reaches(d, a + d[a], b)
    } else {
        false
    }
}

/// A whole descriptor of the blob's chain starts at `p`.
pub open spec fn descriptor_at(d: Seq<u8>, p: int) -> bool {
    walk_reaches(d, 0, p) && descriptor_fits(d, p)
}

/// A standard interface descriptor (nine bytes or more) starts at `p`.
pub open spec fn is_interface_descriptor(d: Seq<u8>, p: int) -> bool {
    d[p + 1] == DESC_INTERFACE && d[p] >= 9
}

/// The interface descriptor at `i` is a VideoStreaming interface.
pub open spec fn is_vs_interface(d: Seq<u8>, i: int) -> bool {
    i >= 0 && d[i + 5] == CC_VIDEO && d[i + 6] == SC_VIDEOSTREAMING
}

/// An uncompressed format descriptor with the Y16 GUID starts at `p`.
pub open spec fn is_y16_format_descriptor(d: Seq<u8>, p: int) -> bool {
    &&& d[p + 1] == DESC_CS_INTERFACE
    &&& d[p] >= 27
    &&& d[p + 2] == VS_FORMAT_UNCOMPRESSED
    &&& d.subrange(p + 5, p + 21) == Y16_GUID@
}

/// An uncompressed frame descriptor starts at `p`.
pub open spec fn is_frame_descriptor(d: Seq<u8>, p: int) -> bool {
    &&& d[p + 1] == DESC_CS_INTERFACE
    &&& d[p] >= 26
    &&& d[p + 2] == VS_FRAME_UNCOMPRESSED
}

/// An isochronous IN endpoint descriptor starts at `p`.
pub open spec fn is_iso_in_endpoint(d: Seq<u8>, p: int) -> bool {
    &&& d[p + 1] == DESC_ENDPOINT
    &&& d[p] >= 7
    &&& d[p + 2] & 0x80 != 0
    &&& d[p + 3] & 0x03 == 0x01
}

/// The raw wMaxPacketSize of the endpoint descriptor at `p`.
pub open spec fn endpoint_packet_size(d: Seq<u8>, p: int) -> u16 {
    le_u16(d[p + 4], d[p + 5])
}

/// Where a descriptor stands in the chain: the position of the interface
/// descriptor it belongs to (-1 before any), and the interface number of
/// the most recent Y16 format of a VideoStreaming interface, if any.
pub struct WalkContext {
    pub iface_at: int,
    pub y16_iface: Option<u8>,
}

/// The context before the first descriptor.
pub open spec fn context_start() -> WalkContext {
    WalkContext { iface_at: -1, y16_iface: None }
}

/// The context after the descriptor at `p`.
pub open spec fn context_step(d: Seq<u8>, p: int, c: WalkContext) -> WalkContext {
    if is_interface_descriptor(d, p) {
        WalkContext { iface_at: p, ..c }
    } else if is_vs_interface(d, c.iface_at) && is_y16_format_descriptor(d, p) {
        WalkContext { y16_iface: Some(d[c.iface_at + 2]), ..c }
    } else {
        c
    }
}

/// The context after the descriptors from `a` up to (not including) `p`.
pub open spec fn context_before(d: Seq<u8>, a: int, p: int, c: WalkContext) -> WalkContext
    decreases d.len() - a,
{
    if descriptor_fits(d, a) && a < p {
        context_before(d, a + d[a], p, context_step(d, a, c))
    } else {
        c
    }
}

/// The context in which the descriptor at `p` stands.
pub open spec fn context_at(d: Seq<u8>, p: int) -> WalkContext {
    context_before(d, 0, p, context_start())
}

/// A Y16 format descriptor of a VideoStreaming interface starts at `p`.
pub open spec fn y16_format_in_vs(d: Seq<u8>, p: int) -> bool {
    &&& descriptor_at(d, p)
    &&& is_y16_format_descriptor(d, p)
    &&& is_vs_interface(d, context_at(d, p).iface_at)
}

/// A frame descriptor of a VideoStreaming interface that follows a Y16
/// format starts at `p`.
pub open spec fn y16_frame_descriptor(d: Seq<u8>, p: int) -> bool {
    &&& descriptor_at(d, p)
    &&& is_frame_descriptor(d, p)
    &&& is_vs_interface(d, context_at(d, p).iface_at)
    &&& context_at(d, p).y16_iface is Some
}

/// An isochronous IN endpoint of a non-zero alternate setting of the
/// VideoStreaming interface that holds the latest Y16 format starts at `p`.
pub open spec fn y16_stream_endpoint(d: Seq<u8>, p: int) -> bool {
    let i = context_at(d, p).iface_at;
    &&& descriptor_at(d, p)
    &&& is_iso_in_endpoint(d, p)
    &&& is_vs_interface(d, i)
    &&& d[i + 3] > 0
    &&& context_at(d, p).y16_iface == Some(d[i + 2])
}

/// What the scan state at walk position `pos` has recorded about the
/// descriptors before it.
pub open spec fn scan_tracks(d: Seq<u8>, pos: int, st: DescriptorScan) -> bool {
    let c = context_at(d, pos);
    &&& st.in_vs_interface == is_vs_interface(d, c.iface_at)
    &&& c.iface_at >= 0 ==> st.current_iface_num == d[c.iface_at + 2] && st.current_alt_setting == d[c.iface_at + 3]
    &&& st.vs_interface_num == c.y16_iface
    &&& (st.format_index is Some <==> c.y16_iface is Some)
    &&& st.format_index is None ==> forall|q: int| #[trigger] y16_format_in_vs(d, q) ==> q >= pos
    &&& st.format_index is Some ==> exists|p: int| {
        &&& #[trigger] y16_format_in_vs(d, p)
        &&& p < pos
        &&& forall|q: int| #[trigger] y16_format_in_vs(d, q) && q < pos ==> q <= p
        &&& st.format_index == Some(d[p + 3])
        &&& st.bits_per_pixel == Some(d[p + 21])
        &&& c.y16_iface == Some(d[context_at(d, p).iface_at + 2])
    }
    &&& st.frame_index is None ==> forall|q: int| #[trigger] y16_frame_descriptor(d, q) ==> q >= pos
    &&& st.frame_index is Some ==> exists|p: int| {
        &&& #[trigger] y16_frame_descriptor(d, p)
        &&& p < pos
        &&& forall|q: int| #[trigger] y16_frame_descriptor(d, q) ==> p <= q
        &&& st.frame_index == Some(d[p + 3])
        &&& st.width == Some(le_u16(d[p + 5], d[p + 6]))
        &&& st.height == Some(le_u16(d[p + 7], d[p + 8]))
        &&& st.frame_interval == Some(le_u32(d[p + 21], d[p + 22], d[p + 23], d[p + 24]))
    }
    &&& forall|q: int| #[trigger] y16_stream_endpoint(d, q) && q < pos ==> endpoint_packet_size(d, q) <= st.best_max_packet_size
    &&& st.best_alt_setting is Some ==> exists|p: int| {
        &&& #[trigger] y16_stream_endpoint(d, p)
        &&& p < pos
        &&& endpoint_packet_size(d, p) == st.best_max_packet_size
        &&& st.best_endpoint_addr == Some(d[p + 2])
        &&& st.best_alt_setting == Some(d[context_at(d, p).iface_at + 3])
        &&& forall|q: int| #[trigger] y16_stream_endpoint(d, q) && q < p ==> endpoint_packet_size(d, q) < st.best_max_packet_size
    }
}

proof fn lemma_reaches_le(d: Seq<u8>, a: int, b: int)
    requires
        walk_reaches(d, a, b),
    ensures
        a <= b,
    decreases d.len() - a,
{
    if a != b {
        lemma_reaches_le(d, a + d[a], b);
    }
}

proof fn lemma_reaches_extend(d: Seq<u8>, a: int, b: int)
    requires
        walk_reaches(d, a, b),
        descriptor_fits(d, b),
    ensures
        walk_reaches(d, a, b + d[b]),
    decreases d.len() - a,
{
    if a == b {
        assert(walk_reaches(d, b + d[b], b + d[b]));
    } else {
        lemma_reaches_le(d, a + d[a], b);
        lemma_reaches_extend(d, a + d[a], b);
    }
}

proof fn lemma_reaches_total(d: Seq<u8>, a: int, p: int, q: int)
    requires
        walk_reaches(d, a, p),
        walk_reaches(d, a, q),
    ensures
        walk_reaches(d, p, q) || walk_reaches(d, q, p),
    decreases d.len() - a,
{
    if a != p && a != q {
        lemma_reaches_total(d, a + d[a], p, q);
    }
}

/// No descriptor of the chain starts strictly inside the one at `pos`.
proof fn lemma_next_descriptor(d: Seq<u8>, pos: int, q: int)
    requires
        walk_reaches(d, 0, pos),
        descriptor_fits(d, pos),
        walk_reaches(d, 0, q),
        pos < q,
    ensures
        pos + d[pos] <= q,
{
    lemma_reaches_total(d, 0, pos, q);
    if walk_reaches(d, q, pos) {
        lemma_reaches_le(d, q, pos);
    } else {
        lemma_reaches_le(d, pos + d[pos], q);
    }
}

proof fn lemma_context_step(d: Seq<u8>, a: int, pos: int, c: WalkContext)
    requires
        walk_reaches(d, a, pos),
        descriptor_fits(d, pos),
    ensures
        context_before(d, a, pos + d[pos], c) == context_step(d, pos, context_before(d, a, pos, c)),
    decreases d.len() - a,
{
    if a == pos {
        assert(context_before(d, pos + d[pos], pos + d[pos], context_step(d, pos, c)) == context_step(d, pos, c));
    } else {
        lemma_reaches_le(d, a + d[a], pos);
        lemma_context_step(d, a + d[a], pos, context_step(d, a, c));
    }
}

proof fn lemma_scan_end_ge(d: Seq<u8>, x: int)
    ensures
        scan_end(d, x) >= x,
    decreases d.len() - x,
{
    if descriptor_fits(d, x) {
        lemma_scan_end_ge(d, x + d[x]);
    }
}

proof fn lemma_descriptor_before_end(d: Seq<u8>, a: int, p: int)
    requires
        walk_reaches(d, a, p),
        descriptor_fits(d, p),
    ensures
        p < scan_end(d, a),
    decreases d.len() - a,
{
    if a == p {
        lemma_scan_end_ge(d, p + d[p]);
    } else {
        lemma_descriptor_before_end(d, a + d[a], p);
    }
}

proof fn lemma_scan_tracks_step(d: Seq<u8>, pos: int, st: DescriptorScan)
    requires
        walk_reaches(d, 0, pos),
        descriptor_fits(d, pos),
        scan_tracks(d, pos, st),
    ensures
        scan_tracks(d, pos + d[pos], scan_step(d, pos, st)),
{
    let next = pos + d[pos];
    let st2 = scan_step(d, pos, st);
    let c = context_at(d, pos);
    lemma_context_step(d, 0, pos, context_start());
    assert(context_at(d, next) == context_step(d, pos, c));
    assert(descriptor_at(d, pos));
    assert forall|q: int| descriptor_at(d, q) && q < next implies q <= pos by {
        if q > pos {
            lemma_next_descriptor(d, pos, q);
        }
    }
    // format descriptor
    if y16_format_in_vs(d, pos) {
        assert(context_at(d, next).y16_iface == Some(d[c.iface_at + 2]));
        assert forall|q: int| #[trigger] y16_format_in_vs(d, q) && q < next implies q <= pos by {}
    } else {
        assert(st2.format_index == st.format_index);
        assert(st2.bits_per_pixel == st.bits_per_pixel);
        assert(context_at(d, next).y16_iface == c.y16_iface);
        if st2.format_index is None {
            assert forall|q: int| #[trigger] y16_format_in_vs(d, q) implies q >= next by {
                if q < next {
                    assert(q <= pos);
                }
            }
        } else {
            let p = choose|p: int| {
                &&& #[trigger] y16_format_in_vs(d, p)
                &&& p < pos
                &&& forall|q: int| #[trigger] y16_format_in_vs(d, q) && q < pos ==> q <= p
                &&& st.format_index == Some(d[p + 3])
                &&& st.bits_per_pixel == Some(d[p + 21])
                &&& c.y16_iface == Some(d[context_at(d, p).iface_at + 2])
            };
            assert(y16_format_in_vs(d, p));
            assert forall|q: int| #[trigger] y16_format_in_vs(d, q) && q < next implies q <= p by {
                assert(q <= pos);
            }
        }
    }
    // frame descriptor
    if st2.frame_index is None {
        assert forall|q: int| #[trigger] y16_frame_descriptor(d, q) implies q >= next by {
            if q < next {
                assert(q <= pos);
                if q == pos {
                    assert(st.frame_index is None);
                } else {
                    assert(q >= pos);
                }
            }
        }
    }
    if st2.frame_index is Some {
        if st.frame_index is None {
            assert(y16_frame_descriptor(d, pos));
            assert forall|q: int| #[trigger] y16_frame_descriptor(d, q) implies pos <= q by {}
        } else {
            let p = choose|p: int| {
                &&& #[trigger] y16_frame_descriptor(d, p)
                &&& p < pos
                &&& forall|q: int| #[trigger] y16_frame_descriptor(d, q) ==> p <= q
                &&& st.frame_index == Some(d[p + 3])
                &&& st.width == Some(le_u16(d[p + 5], d[p + 6]))
                &&& st.height == Some(le_u16(d[p + 7], d[p + 8]))
                &&& st.frame_interval == Some(le_u32(d[p + 21], d[p + 22], d[p + 23], d[p + 24]))
            };
            assert(y16_frame_descriptor(d, p));
        }
    }
    // endpoints
    let updated = y16_stream_endpoint(d, pos) && endpoint_packet_size(d, pos) > st.best_max_packet_size;
    if updated {
        assert(st2.best_max_packet_size == endpoint_packet_size(d, pos));
        assert forall|q: int| #[trigger] y16_stream_endpoint(d, q) && q < next implies endpoint_packet_size(d, q) <= st2.best_max_packet_size by {
            assert(q <= pos);
        }
        assert forall|q: int| #[trigger] y16_stream_endpoint(d, q) && q < pos implies endpoint_packet_size(d, q) < st2.best_max_packet_size by {}
        assert(y16_stream_endpoint(d, pos));
    } else {
        assert(st2.best_max_packet_size == st.best_max_packet_size);
        assert(st2.best_alt_setting == st.best_alt_setting);
        assert(st2.best_endpoint_addr == st.best_endpoint_addr);
        assert forall|q: int| #[trigger] y16_stream_endpoint(d, q) && q < next implies endpoint_packet_size(d, q) <= st2.best_max_packet_size by {
            assert(q <= pos);
        }
        if st2.best_alt_setting is Some {
            let p = choose|p: int| {
                &&& #[trigger] y16_stream_endpoint(d, p)
                &&& p < pos
                &&& endpoint_packet_size(d, p) == st.best_max_packet_size
                &&& st.best_endpoint_addr == Some(d[p + 2])
                &&& st.best_alt_setting == Some(d[context_at(d, p).iface_at + 3])
                &&& forall|q: int| #[trigger] y16_stream_endpoint(d, q) && q < p ==> endpoint_packet_size(d, q) < st.best_max_packet_size
            };
            assert(y16_stream_endpoint(d, p));
        }
    }
    lemma_reaches_extend(d, 0, pos);
}

proof fn lemma_scan_tracks(d: Seq<u8>, pos: int, st: DescriptorScan)
    requires
        walk_reaches(d, 0, pos),
        scan_tracks(d, pos, st),
    ensures
        scan_tracks(d, scan_end(d, pos), scan(d, pos, st)),
    decreases d.len() - pos,
{
    if descriptor_fits(d, pos) {
        lemma_scan_tracks_step(d, pos, st);
        lemma_reaches_extend(d, 0, pos);
        lemma_scan_tracks(d, pos + d[pos], scan_step(d, pos, st));
    }
}

proof fn lemma_parse_tracks(d: Seq<u8>)
    ensures
        scan_tracks(d, scan_end(d, 0), scan(d, 0, scan_start())),
        forall|p: int| #[trigger] descriptor_at(d, p) ==> p < scan_end(d, 0),
{
    assert(context_at(d, 0) == context_start());
    assert forall|q: int| #[trigger] y16_format_in_vs(d, q) implies q >= 0 by {
        lemma_reaches_le(d, 0, q);
    }
    assert forall|q: int| #[trigger] y16_frame_descriptor(d, q) implies q >= 0 by {
        lemma_reaches_le(d, 0, q);
    }
    assert forall|q: int| #[trigger] y16_stream_endpoint(d, q) && q < 0 implies endpoint_packet_size(d, q) <= 0u16 by {
        lemma_reaches_le(d, 0, q);
    }
    assert(scan_tracks(d, 0, scan_start()));
    lemma_scan_tracks(d, 0, scan_start());
    assert forall|p: int| #[trigger] descriptor_at(d, p) implies p < scan_end(d, 0) by {
        lemma_descriptor_before_end(d, 0, p);
    }
}

/// A successful parse reports the first frame descriptor that follows a
/// Y16 format in a VideoStreaming interface: its bFrameIndex, wWidth,
/// wHeight and dwDefaultFrameInterval.
pub proof fn parsed_frame_is_first_after_y16_format(d: Seq<u8>)
    ensures
        spec_parse_uvc_config(d) matches Ok(c) ==> exists|p: int| {
            &&& #[trigger] y16_frame_descriptor(d, p)
            &&& forall|q: int| #[trigger] y16_frame_descriptor(d, q) ==> p <= q
            &&& c.frame_index == d[p + 3]
            &&& c.width == le_u16(d[p + 5], d[p + 6])
            &&& c.height == le_u16(d[p + 7], d[p + 8])
            &&& c.frame_interval == le_u32(d[p + 21], d[p + 22], d[p + 23], d[p + 24])
        },
{
    lemma_parse_tracks(d);
}

/// A successful parse reports the isochronous IN endpoint with the
/// largest raw wMaxPacketSize among those of the non-zero alternate
/// settings of the Y16 VideoStreaming interface, the first one where
/// several share it, with its address and alternate setting.
pub proof fn parsed_endpoint_has_largest_packet_size(d: Seq<u8>)
    ensures
        spec_parse_uvc_config(d) matches Ok(c) ==> {
            &&& forall|q: int| #[trigger] y16_stream_endpoint(d, q) ==> endpoint_packet_size(d, q) <= c.max_packet_size
            &&& exists|p: int| {
                &&& #[trigger] y16_stream_endpoint(d, p)
                &&& endpoint_packet_size(d, p) == c.max_packet_size
                &&& c.endpoint_addr == d[p + 2]
                &&& c.alt_setting == d[context_at(d, p).iface_at + 3]
                &&& forall|q: int| #[trigger] y16_stream_endpoint(d, q) && q < p ==> endpoint_packet_size(d, q) < c.max_packet_size
            }
        },
{
    lemma_parse_tracks(d);
    let st = scan(d, 0, scan_start());
    if spec_parse_uvc_config(d) is Ok {
        assert forall|q: int| #[trigger] y16_stream_endpoint(d, q) implies endpoint_packet_size(d, q) <= st.best_max_packet_size by {
            assert(descriptor_at(d, q));
        }
    }
}

/// A successful parse reports the last Y16 format descriptor of a
/// VideoStreaming interface: its bFormatIndex and bBitsPerPixel, and the
/// number of the interface it belongs to.
pub proof fn parsed_format_is_last_y16_format(d: Seq<u8>)
    ensures
        spec_parse_uvc_config(d) matches Ok(c) ==> exists|p: int| {
            &&& #[trigger] y16_format_in_vs(d, p)
            &&& forall|q: int| #[trigger] y16_format_in_vs(d, q) ==> q <= p
            &&& c.format_index == d[p + 3]
            &&& c.bits_per_pixel == d[p + 21]
            &&& c.vs_interface_num == d[context_at(d, p).iface_at + 2]
        },
{
    lemma_parse_tracks(d);
    let st = scan(d, 0, scan_start());
    if spec_parse_uvc_config(d) is Ok {
        let p = choose|p: int| {
            &&& #[trigger] y16_format_in_vs(d, p)
            &&& p < scan_end(d, 0)
            &&& forall|q: int| #[trigger] y16_format_in_vs(d, q) && q < scan_end(d, 0) ==> q <= p
            &&& st.format_index == Some(d[p + 3])
            &&& st.bits_per_pixel == Some(d[p + 21])
            &&& context_at(d, scan_end(d, 0)).y16_iface == Some(d[context_at(d, p).iface_at + 2])
        };
        assert forall|q: int| #[trigger] y16_format_in_vs(d, q) implies q <= p by {
            assert(descriptor_at(d, q));
        }
    }
}

} // verus!
