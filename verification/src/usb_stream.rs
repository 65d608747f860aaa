//! The decisions and encodings around isochronous Y16 streaming: the UVC
//! probe/commit control block, transfer buffer sizing, and the outcome of
//! extension-unit transfers.

use vstd::prelude::*;

use crate::camera::types::CameraError;
use crate::text::{decimal, push_decimal, push_signed_decimal, signed_decimal};
use crate::uvc_descriptors::{effective_packet_size, UvcStreamConfig};

verus! {

/// Number of isochronous frames per transfer request.
pub const ISOCH_FRAMES_PER_TRANSFER: u32 = 64;
/// Number of transfer requests kept in flight (double buffering).
pub const NUM_TRANSFERS: usize = 2;
/// Size in bytes of the UVC probe/commit control block.
pub const PROBE_CONTROL_LEN: usize = 26;

/// UVC video probe and commit control block.
#[derive(Clone, Copy, Debug, PartialEq, Eq, Structural)]
pub struct UvcProbeControl {
    pub bm_hint: u16,
    pub b_format_index: u8,
    pub b_frame_index: u8,
    pub dw_frame_interval: u32,
    pub w_key_frame_rate: u16,
    pub w_p_frame_rate: u16,
    pub w_comp_quality: u16,
    pub w_comp_window_size: u16,
    pub w_delay: u16,
    pub dw_max_video_frame_size: u32,
    pub dw_max_payload_transfer_size: u32,
}

/// Byte `k` (0 least significant) of a value.
pub open spec fn byte_of(v: int, k: int) -> u8 {
    if k == 0 {
        (v % 256) as u8
    } else if k == 1 {
        ((v / 256) % 256) as u8
    } else if k == 2 {
        ((v / 65536) % 256) as u8
    } else {
        ((v / 16777216) % 256) as u8
    }
}

/// Value of two little-endian bytes at `at`.
pub open spec fn read_le16(b: Seq<u8>, at: int) -> u16 {
    (b[at] + 256 * b[at + 1]) as u16
}

/// Value of four little-endian bytes at `at`.
pub open spec fn read_le32(b: Seq<u8>, at: int) -> u32 {
    (b[at] + 256 * b[at + 1] + 65536 * b[at + 2] + 16777216 * b[at + 3]) as u32
}

/// Wire image of a probe control block: its fields in order, little-endian,
/// without padding (26 bytes).
pub open spec fn probe_bytes(p: UvcProbeControl) -> Seq<u8> {
    seq![
        byte_of(p.bm_hint as int, 0), byte_of(p.bm_hint as int, 1),
        p.b_format_index, p.b_frame_index,
        byte_of(p.dw_frame_interval as int, 0), byte_of(p.dw_frame_interval as int, 1),
        byte_of(p.dw_frame_interval as int, 2), byte_of(p.dw_frame_interval as int, 3),
        byte_of(p.w_key_frame_rate as int, 0), byte_of(p.w_key_frame_rate as int, 1),
        byte_of(p.w_p_frame_rate as int, 0), byte_of(p.w_p_frame_rate as int, 1),
        byte_of(p.w_comp_quality as int, 0), byte_of(p.w_comp_quality as int, 1),
        byte_of(p.w_comp_window_size as int, 0), byte_of(p.w_comp_window_size as int, 1),
        byte_of(p.w_delay as int, 0), byte_of(p.w_delay as int, 1),
        byte_of(p.dw_max_video_frame_size as int, 0), byte_of(p.dw_max_video_frame_size as int, 1),
        byte_of(p.dw_max_video_frame_size as int, 2), byte_of(p.dw_max_video_frame_size as int, 3),
        byte_of(p.dw_max_payload_transfer_size as int, 0), byte_of(p.dw_max_payload_transfer_size as int, 1),
        byte_of(p.dw_max_payload_transfer_size as int, 2), byte_of(p.dw_max_payload_transfer_size as int, 3),
    ]
}

/// The probe control block whose wire image starts `b`.
pub open spec fn probe_of_bytes(b: Seq<u8>) -> UvcProbeControl {
    UvcProbeControl {
        bm_hint: read_le16(b, 0),
        b_format_index: b[2],
        b_frame_index: b[3],
        dw_frame_interval: read_le32(b, 4),
        w_key_frame_rate: read_le16(b, 8),
        w_p_frame_rate: read_le16(b, 10),
        w_comp_quality: read_le16(b, 12),
        w_comp_window_size: read_le16(b, 14),
        w_delay: read_le16(b, 16),
        dw_max_video_frame_size: read_le32(b, 18),
        dw_max_payload_transfer_size: read_le32(b, 22),
    }
}

fn push_le16(b: &mut Vec<u8>, v: u16)
    ensures
        final(b)@ == old(b)@ + seq![byte_of(v as int, 0), byte_of(v as int, 1)],
{
    b.push((v % 256) as u8);
    b.push(((v / 256) % 256) as u8);
    assert(b@ =~= old(b)@ + seq![byte_of(v as int, 0), byte_of(v as int, 1)]);
}

fn push_le32(b: &mut Vec<u8>, v: u32)
    ensures
        final(b)@ == old(b)@ + seq![
            byte_of(v as int, 0),
            byte_of(v as int, 1),
            byte_of(v as int, 2),
            byte_of(v as int, 3),
        ],
{
    b.push((v % 256) as u8);
    b.push(((v / 256) % 256) as u8);
    b.push(((v / 65536) % 256) as u8);
    b.push(((v / 16777216) % 256) as u8);
    assert(b@ =~= old(b)@ + seq![
        byte_of(v as int, 0),
        byte_of(v as int, 1),
        byte_of(v as int, 2),
        byte_of(v as int, 3),
    ]);
}

fn get_le16(b: &[u8], at: usize) -> (v: u16)
    requires
        at + 2 <= b.len(),
    ensures
        v == read_le16(b@, at as int),
{
    b[at] as u16 + 256 * (b[at + 1] as u16)
}

fn get_le32(b: &[u8], at: usize) -> (v: u32)
    requires
        at + 4 <= b.len(),
    ensures
        v == read_le32(b@, at as int),
{
    b[at] as u32 + 256 * (b[at + 1] as u32) + 65536 * (b[at + 2] as u32) + 16777216 * (b[at + 3] as u32)
}

impl UvcProbeControl {
    /// The 26-byte wire image of the control block.
    pub fn to_bytes(&self) -> (b: Vec<u8>)
        ensures
            b@ == probe_bytes(*self),
            b.len() == PROBE_CONTROL_LEN,
    {
        let mut b: Vec<u8> = Vec::with_capacity(PROBE_CONTROL_LEN);
        push_le16(&mut b, self.bm_hint);
        b.push(self.b_format_index);
        b.push(self.b_frame_index);
        push_le32(&mut b, self.dw_frame_interval);
        push_le16(&mut b, self.w_key_frame_rate);
        push_le16(&mut b, self.w_p_frame_rate);
        push_le16(&mut b, self.w_comp_quality);
        push_le16(&mut b, self.w_comp_window_size);
        push_le16(&mut b, self.w_delay);
        push_le32(&mut b, self.dw_max_video_frame_size);
        push_le32(&mut b, self.dw_max_payload_transfer_size);
        assert(b@ =~= probe_bytes(*self));
        b
    }

    /// The control block read from the first 26 bytes of `b`.
    pub fn from_bytes(b: &[u8]) -> (p: Self)
        requires
            b.len() >= PROBE_CONTROL_LEN,
        ensures
            p == probe_of_bytes(b@),
    {
        UvcProbeControl {
            bm_hint: get_le16(b, 0),
            b_format_index: b[2],
            b_frame_index: b[3],
            dw_frame_interval: get_le32(b, 4),
            w_key_frame_rate: get_le16(b, 8),
            w_p_frame_rate: get_le16(b, 10),
            w_comp_quality: get_le16(b, 12),
            w_comp_window_size: get_le16(b, 14),
            w_delay: get_le16(b, 16),
            dw_max_video_frame_size: get_le32(b, 18),
            dw_max_payload_transfer_size: get_le32(b, 22),
        }
    }
}

proof fn lemma_u16_bytes(v: u16)
    ensures
        (byte_of(v as int, 0) + 256 * byte_of(v as int, 1)) as u16 == v,
{
    assert((v % 256) + 256 * ((v / 256) % 256) == v) by (bit_vector);
}

proof fn lemma_u32_bytes(v: u32)
    ensures
        (byte_of(v as int, 0) + 256 * byte_of(v as int, 1) + 65536 * byte_of(v as int, 2) + 16777216
            * byte_of(v as int, 3)) as u32 == v,
{
    assert((v % 256) + 256 * ((v / 256) % 256) + 65536 * ((v / 65536) % 256) + 16777216 * ((v / 16777216)
        % 256) == v) by (bit_vector);
}

proof fn lemma_bytes_u16(b0: u8, b1: u8)
    ensures
        byte_of((b0 + 256 * b1) as u16 as int, 0) == b0,
        byte_of((b0 + 256 * b1) as u16 as int, 1) == b1,
{
    let v: u16 = (b0 + 256 * b1) as u16;
    assert(v == b0 + 256 * b1);
    assert((b0 + 256 * b1) % 256 == b0 && ((b0 + 256 * b1) / 256) % 256 == b1) by (nonlinear_arith)
        requires
            0 <= b0 < 256,
            0 <= b1 < 256,
    ;
}

proof fn lemma_bytes_u32(b0: u8, b1: u8, b2: u8, b3: u8)
    ensures
        ({
            let v = (b0 + 256 * b1 + 65536 * b2 + 16777216 * b3) as u32 as int;
            &&& byte_of(v, 0) == b0
            &&& byte_of(v, 1) == b1
            &&& byte_of(v, 2) == b2
            &&& byte_of(v, 3) == b3
        }),
{
    let x: int = b0 + 256 * b1 + 65536 * b2 + 16777216 * b3;
    assert(0 <= x < 4294967296);
    assert(x % 256 == b0) by (nonlinear_arith)
        requires
            x == b0 + 256 * (b1 + 256 * b2 + 65536 * b3),
            0 <= b0 < 256,
    ;
    assert(x / 256 == b1 + 256 * b2 + 65536 * b3) by (nonlinear_arith)
        requires
            x == b0 + 256 * (b1 + 256 * b2 + 65536 * b3),
            0 <= b0 < 256,
    ;
    assert((x / 256) % 256 == b1) by (nonlinear_arith)
        requires
            x / 256 == b1 + 256 * (b2 + 256 * b3),
            0 <= b1 < 256,
    ;
    assert(x / 65536 == b2 + 256 * b3) by (nonlinear_arith)
        requires
            x == (b0 + 256 * b1) + 65536 * (b2 + 256 * b3),
            0 <= b0 + 256 * b1 < 65536,
    ;
    assert((x / 65536) % 256 == b2) by (nonlinear_arith)
        requires
            x / 65536 == b2 + 256 * b3,
            0 <= b2 < 256,
    ;
    assert(x / 16777216 == b3) by (nonlinear_arith)
        requires
            x == (b0 + 256 * b1 + 65536 * b2) + 16777216 * b3,
            0 <= b0 + 256 * b1 + 65536 * b2 < 16777216,
    ;
}

/// Reading a control block back from its wire image gives the block.
pub proof fn probe_roundtrip(p: UvcProbeControl)
    ensures
        probe_bytes(p).len() == 26,
        probe_of_bytes(probe_bytes(p)) == p,
{
    lemma_u16_bytes(p.bm_hint);
    lemma_u32_bytes(p.dw_frame_interval);
    lemma_u16_bytes(p.w_key_frame_rate);
    lemma_u16_bytes(p.w_p_frame_rate);
    lemma_u16_bytes(p.w_comp_quality);
    lemma_u16_bytes(p.w_comp_window_size);
    lemma_u16_bytes(p.w_delay);
    lemma_u32_bytes(p.dw_max_video_frame_size);
    lemma_u32_bytes(p.dw_max_payload_transfer_size);
}

/// Writing back the block read from 26 bytes gives those bytes.
pub proof fn probe_bytes_roundtrip(b: Seq<u8>)
    requires
        b.len() == 26,
    ensures
        probe_bytes(probe_of_bytes(b)) == b,
{
    lemma_bytes_u16(b[0], b[1]);
    lemma_bytes_u32(b[4], b[5], b[6], b[7]);
    lemma_bytes_u16(b[8], b[9]);
    lemma_bytes_u16(b[10], b[11]);
    lemma_bytes_u16(b[12], b[13]);
    lemma_bytes_u16(b[14], b[15]);
    lemma_bytes_u16(b[16], b[17]);
    lemma_bytes_u32(b[18], b[19], b[20], b[21]);
    lemma_bytes_u32(b[22], b[23], b[24], b[25]);
    assert(probe_bytes(probe_of_bytes(b)) =~= b);
}

/// The probe request for a stream configuration: hint "keep frame
/// interval", the configuration's format, frame and interval, and a
/// maximum video frame size of two bytes per pixel.
pub fn probe_for_config(config: &UvcStreamConfig) -> (p: UvcProbeControl)
    requires
        config.width * config.height * 2 <= u32::MAX,
    ensures
        p == (UvcProbeControl {
            bm_hint: 1,
            b_format_index: config.format_index,
            b_frame_index: config.frame_index,
            dw_frame_interval: config.frame_interval,
            w_key_frame_rate: 0,
            w_p_frame_rate: 0,
            w_comp_quality: 0,
            w_comp_window_size: 0,
            w_delay: 0,
            dw_max_video_frame_size: (config.width * config.height * 2) as u32,
            dw_max_payload_transfer_size: 0,
        }),
{
    UvcProbeControl {
        bm_hint: 0x0001,
        b_format_index: config.format_index,
        b_frame_index: config.frame_index,
        dw_frame_interval: config.frame_interval,
        w_key_frame_rate: 0,
        w_p_frame_rate: 0,
        w_comp_quality: 0,
        w_comp_window_size: 0,
        w_delay: 0,
        dw_max_video_frame_size: (config.width as u32) * (config.height as u32) * 2,
        dw_max_payload_transfer_size: 0,
    }
}

/// Bytes of one isochronous transfer buffer: one effective packet slot per
/// frame of the transfer.
pub fn isoch_buffer_size(max_packet_size: u16) -> (n: usize)
    ensures
        n == effective_packet_size(max_packet_size) * ISOCH_FRAMES_PER_TRANSFER,
{
    let m = max_packet_size;
    assert(m & 0x7FF <= 0x7FF) by (bit_vector);
    assert((m >> 11) & 3 <= 3) by (bit_vector);
    let lo = (m & 0x7FF) as usize;
    let mult = ((m >> 11) & 0x3) as usize + 1;
    assert(lo * mult <= 8188) by (nonlinear_arith)
        requires
            lo <= 0x7FF,
            mult <= 4,
    ;
    let slot = lo * mult;
    assert(slot * 64 <= 524032);
    slot * 64
}

/// The message of a failed extension-unit transfer.
pub open spec fn ctrl_failure_message(get: bool, unit_id: u8, control_id: u8, code: i32) -> Seq<char> {
    (if get { "GET_CUR failed (unit="@ } else { "SET_CUR failed (unit="@ }) + decimal(unit_id as nat)
        + ", ctrl="@ + decimal(control_id as nat) + "): code "@ + signed_decimal(code as int)
}

fn ctrl_failure(get: bool, unit_id: u8, control_id: u8, code: i32) -> (e: CameraError)
    ensures
        e matches CameraError::LeptonError(m) && m@ == ctrl_failure_message(get, unit_id, control_id, code),
{
    let mut m = if get {
        String::from_str("GET_CUR failed (unit=")
    } else {
        String::from_str("SET_CUR failed (unit=")
    };
    push_decimal(&mut m, unit_id as u64);
    m.append(", ctrl=");
    push_decimal(&mut m, control_id as u64);
    m.append("): code ");
    push_signed_decimal(&mut m, code as i64);
    assert(m@ =~= ctrl_failure_message(get, unit_id, control_id, code));
    CameraError::LeptonError(m)
}

/// Outcome of a GET_CUR whose transfer returned `ret`: the number of bytes
/// read, or a Lepton error when `ret` is negative.
pub fn get_ctrl_outcome(ret: i32, unit_id: u8, control_id: u8) -> (r: Result<usize, CameraError>)
    ensures
        ret >= 0 ==> r == Ok::<usize, CameraError>(ret as usize),
        ret < 0 ==> (r matches Err(CameraError::LeptonError(m)) && m@ == ctrl_failure_message(
            true,
            unit_id,
            control_id,
            ret,
        )),
{
    if ret < 0 {
        return Err(ctrl_failure(true, unit_id, control_id, ret));
    }
    Ok(ret as usize)
}

/// Outcome of a SET_CUR whose transfer returned `ret`: success, or a
/// Lepton error when `ret` is negative.
pub fn set_ctrl_outcome(ret: i32, unit_id: u8, control_id: u8) -> (r: Result<(), CameraError>)
    ensures
        ret >= 0 ==> r is Ok,
        ret < 0 ==> (r matches Err(CameraError::LeptonError(m)) && m@ == ctrl_failure_message(
            false,
            unit_id,
            control_id,
            ret,
        )),
{
    if ret < 0 {
        return Err(ctrl_failure(false, unit_id, control_id, ret));
    }
    Ok(())
}

} // verus!
