//! UVC isochronous payload header parsing and Y16 frame reassembly.
//!
//! Parses UVC payload headers from isochronous USB transfer packets and
//! reassembles them into complete Y16 video frames.

use vstd::prelude::*;

use crate::text::{decimal, push_decimal};

verus! {

/// Bit-field Header (BFH) flag: Frame ID toggle.
pub const BFH_FID: u8 = 0x01;
/// Bit-field Header (BFH) flag: End of Frame.
pub const BFH_EOF: u8 = 0x02;
/// Bit-field Header (BFH) flag: Presentation Time Stamp present.
pub const BFH_PTS: u8 = 0x04;
/// Bit-field Header (BFH) flag: Source Clock Reference present.
pub const BFH_SCR: u8 = 0x08;
/// Bit-field Header (BFH) flag: Still Image.
pub const BFH_STI: u8 = 0x20;
/// Bit-field Header (BFH) flag: Error.
pub const BFH_ERR: u8 = 0x40;
/// Bit-field Header (BFH) flag: End of Header.
pub const BFH_EOH: u8 = 0x80;

/// Parsed UVC payload header from an isochronous transfer packet.
#[derive(Debug, Clone, Copy, PartialEq, Eq)]
pub struct UvcPayloadHeader {
    /// Length of the header in bytes.
    pub header_len: u8,
    /// Frame ID bit — toggles between consecutive frames.
    pub fid: bool,
    /// End of frame flag.
    pub eof: bool,
    /// Error flag — indicates the device detected an error for this frame.
    pub err: bool,
    /// Presentation Time Stamp (if present).
    pub pts: Option<u32>,
    /// Source Clock Reference (if present).
    pub scr: Option<[u8; 6]>,
}

/// Little-endian value of four bytes.
pub open spec fn le_u32(b0: u8, b1: u8, b2: u8, b3: u8) -> int {
    b0 + 256 * b1 + 65536 * b2 + 16777216 * b3
}

/// A packet whose first byte is a plausible header length: at least two
/// bytes and no longer than the packet itself.
pub open spec fn header_ok(data: Seq<u8>) -> bool {
    &&& data.len() >= 2
    &&& data[0] >= 2
    &&& data[0] <= data.len()
}

/// The message of a rejected header.
pub open spec fn header_error(data: Seq<u8>) -> Seq<char> {
    if data.len() < 2 {
        "Payload too short for UVC header"@
    } else {
        "Invalid header length: "@ + decimal(data[0] as nat)
    }
}

/// Whether the packet carries a presentation time stamp that fits in its header.
pub open spec fn has_pts(data: Seq<u8>) -> bool {
    data[1] & BFH_PTS != 0 && 6 <= data[0]
}

/// Offset of the source clock reference, right after the optional time stamp.
pub open spec fn scr_offset(data: Seq<u8>) -> int {
    if has_pts(data) { 6 } else { 2 }
}

/// Whether the packet carries a source clock reference that fits in its header.
pub open spec fn has_scr(data: Seq<u8>) -> bool {
    data[1] & BFH_SCR != 0 && scr_offset(data) + 6 <= data[0]
}

/// `h` is the header that `data` starts with.
pub open spec fn header_of(h: UvcPayloadHeader, data: Seq<u8>) -> bool {
    &&& h.header_len == data[0]
    &&& h.fid == (data[1] & BFH_FID != 0)
    &&& h.eof == (data[1] & BFH_EOF != 0)
    &&& h.err == (data[1] & BFH_ERR != 0)
    &&& (h.pts is Some <==> has_pts(data))
    &&& (has_pts(data) ==> h.pts->0 == le_u32(data[2], data[3], data[4], data[5]))
    &&& (h.scr is Some <==> has_scr(data))
    &&& (has_scr(data) ==> h.scr->0@ == data.subrange(scr_offset(data), scr_offset(data) + 6))
}

/// Parse a UVC payload header from raw isochronous packet data.
///
/// Returns the parsed header and the byte offset where payload data begins.
pub fn parse_payload_header(data: &[u8]) -> (r: Result<(UvcPayloadHeader, usize), String>)
    ensures
        r is Ok <==> header_ok(data@),
        r matches Ok((h, off)) ==> off == data@[0] && header_of(h, data@),
        r matches Err(e) ==> e@ == header_error(data@),
{
    if data.len() < 2 {
        return Err(String::from_str("Payload too short for UVC header"));
    }
    let header_len = data[0];
    if (header_len as usize) > data.len() || header_len < 2 {
        let mut msg = String::from_str("Invalid header length: ");
        push_decimal(&mut msg, header_len as u64);
        return Err(msg);
    }
    let flags = data[1];
    let fid = (flags & BFH_FID) != 0;
    let eof = (flags & BFH_EOF) != 0;
    let err = (flags & BFH_ERR) != 0;
    let pts_flag = (flags & BFH_PTS) != 0;
    let scr_flag = (flags & BFH_SCR) != 0;

    let mut offset: usize = 2;

    let pts = if pts_flag && offset + 4 <= header_len as usize {
        let val: u32 = data[offset] as u32 + 256 * (data[offset + 1] as u32)
            + 65536 * (data[offset + 2] as u32) + 16777216 * (data[offset + 3] as u32);
        offset += 4;
        Some(val)
    } else {
        None
    };

    let scr = if scr_flag && offset + 6 <= header_len as usize {
        let s: [u8; 6] = [
            data[offset],
            data[offset + 1],
            data[offset + 2],
            data[offset + 3],
            data[offset + 4],
            data[offset + 5],
        ];
        assert(s@ =~= data@.subrange(offset as int, offset + 6));
        offset += 6;
        Some(s)
    } else {
        None
    };

    Ok((UvcPayloadHeader { header_len, fid, eof, err, pts, scr }, header_len as usize))
}

/// The abstract state of a [`FrameAssembler`].
pub struct AssemblerState {
    /// Payload bytes accumulated for the frame in progress.
    pub buffer: Seq<u8>,
    /// Size in bytes of a complete frame.
    pub expected_size: nat,
    /// Frame ID bit of the last accepted packet.
    pub last_fid: Option<bool>,
}

/// What feeding one packet gives back.
pub enum FeedOutcome {
    /// The packet header is malformed.
    Malformed,
    /// More packets are needed.
    Pending,
    /// A complete frame.
    Frame(Seq<u8>),
}

/// One step of frame reassembly: the state after `packet` and what it yields.
pub open spec fn feed_step(s: AssemblerState, packet: Seq<u8>) -> (AssemblerState, FeedOutcome) {
    if !header_ok(packet) {
        (s, FeedOutcome::Malformed)
    } else {
        let fid = packet[1] & BFH_FID != 0;
        let eof = packet[1] & BFH_EOF != 0;
        let err = packet[1] & BFH_ERR != 0;
        if err {
            (AssemblerState { buffer: Seq::empty(), last_fid: Some(fid), ..s }, FeedOutcome::Pending)
        } else {
            let kept = if s.last_fid is Some && s.last_fid->0 != fid && s.buffer.len() > 0 {
                Seq::empty()
            } else {
                s.buffer
            };
            let grown = kept + packet.subrange(packet[0] as int, packet.len() as int);
            if !eof {
                (AssemblerState { buffer: grown, last_fid: Some(fid), ..s }, FeedOutcome::Pending)
            } else if grown.len() == s.expected_size {
                (AssemblerState { buffer: Seq::empty(), last_fid: Some(fid), ..s }, FeedOutcome::Frame(grown))
            } else {
                (AssemblerState { buffer: Seq::empty(), last_fid: Some(fid), ..s }, FeedOutcome::Pending)
            }
        }
    }
}

/// Whether an exec result of `feed` agrees with an abstract outcome.
pub open spec fn feed_result_matches(
    r: Result<Option<Vec<u8>>, String>,
    o: FeedOutcome,
    packet: Seq<u8>,
) -> bool {
    match o {
        FeedOutcome::Malformed => r matches Err(e) && e@ == header_error(packet),
        FeedOutcome::Pending => r matches Ok(None),
        FeedOutcome::Frame(f) => r matches Ok(Some(v)) && v@ == f,
    }
}

/// Assembles complete Y16 frames from a sequence of UVC isochronous packets.
pub struct FrameAssembler {
    /// Accumulated payload data for the current frame.
    buffer: Vec<u8>,
    /// Expected frame size in bytes (width * height * 2 for Y16).
    expected_size: usize,
    /// Last observed FID bit, used to detect frame boundaries.
    last_fid: Option<bool>,
}

impl View for FrameAssembler {
    type V = AssemblerState;

    closed spec fn view(&self) -> AssemblerState {
        AssemblerState {
            buffer: self.buffer@,
            expected_size: self.expected_size as nat,
            last_fid: self.last_fid,
        }
    }
}

impl FrameAssembler {
    /// Create a new assembler for frames of the given dimensions.
    ///
    /// `expected_size` is computed as `width * height * 2` (Y16 = 2 bytes/pixel).
    pub fn new(width: u16, height: u16) -> (r: Self)
        requires
            width * height * 2 <= usize::MAX,
        ensures
            r@.buffer.len() == 0,
            r@.expected_size == width * height * 2,
            r@.last_fid is None,
    {
        let expected_size = width as usize * height as usize * 2;
        FrameAssembler {
            buffer: Vec::with_capacity(expected_size),
            expected_size,
            last_fid: None,
        }
    }

    /// Feed a raw isochronous packet into the assembler.
    ///
    /// Returns `Ok(Some(frame))` when a complete frame has been assembled,
    /// `Ok(None)` when more packets are needed, or `Err` if the packet
    /// header is malformed.
    pub fn feed(&mut self, packet: &[u8]) -> (r: Result<Option<Vec<u8>>, String>)
        ensures
            final(self)@ == feed_step(old(self)@, packet@).0,
            feed_result_matches(r, feed_step(old(self)@, packet@).1, packet@),
    {
        let (header, data_offset) = match parse_payload_header(packet) {
            Ok(parsed) => parsed,
            Err(e) => return Err(e),
        };

        if header.err {
            self.buffer.clear();
            self.last_fid = Some(header.fid);
            return Ok(None);
        }

        // FID toggle means a new frame started — discard any incomplete data
        if let Some(last) = self.last_fid {
            if last != header.fid && self.buffer.len() > 0 {
                self.buffer.clear();
            }
        }
        self.last_fid = Some(header.fid);

        // Append payload data (everything after the header)
        let ghost kept = self.buffer@;
        let mut i = data_offset;
        while i < packet.len()
            invariant
                data_offset <= i <= packet.len(),
                self.buffer@ == kept + packet@.subrange(data_offset as int, i as int),
                self.expected_size == old(self).expected_size,
                self.last_fid == Some(header.fid),
            decreases packet.len() - i,
        {
            self.buffer.push(packet[i]);
            i += 1;
            assert(self.buffer@ =~= kept + packet@.subrange(data_offset as int, i as int));
        }

        if header.eof {
            if self.buffer.len() == self.expected_size {
                let mut frame: Vec<u8> = Vec::new();
                core::mem::swap(&mut frame, &mut self.buffer);
                self.buffer.reserve(self.expected_size);
                return Ok(Some(frame));
            } else {
                self.buffer.clear();
                return Ok(None);
            }
        }
        Ok(None)
    }

    /// Reset the assembler state, discarding any partial frame data.
    pub fn reset(&mut self)
        ensures
            final(self)@.buffer.len() == 0,
            final(self)@.last_fid is None,
            final(self)@.expected_size == old(self)@.expected_size,
    {
        self.buffer.clear();
        self.last_fid = None;
    }
}


/// Completion record of one isochronous microframe: the status the host
/// controller reported and the number of bytes it received.
#[derive(Clone, Copy, Debug)]
pub struct IsochFrameStatus {
    /// Completion status; zero means success.
    pub status: i32,
    /// Number of bytes actually received in this microframe.
    pub act_count: u16,
}

/// The packet that microframe `f` delivered at byte `offset` of the transfer
/// buffer: present when it completed successfully with data that lies
/// within the buffer.
pub open spec fn packet_at(buf: Seq<u8>, f: IsochFrameStatus, offset: int) -> Option<Seq<u8>> {
    if f.act_count > 0 && f.status == 0 && offset + f.act_count <= buf.len() {
        Some(buf.subrange(offset, offset + f.act_count))
    } else {
        None
    }
}

/// Feeds the packets of microframes `i..` (the `i`-th starting at byte
/// `offset`, each slot `stride` bytes long) into the assembler, giving the
/// final state and the frames completed on the way, in order.
pub open spec fn run_transfer(
    s: AssemblerState,
    buf: Seq<u8>,
    frames: Seq<IsochFrameStatus>,
    stride: int,
    i: int,
    offset: int,
) -> (AssemblerState, Seq<Seq<u8>>)
    decreases frames.len() - i,
{
    if i < 0 || i >= frames.len() {
        (s, Seq::empty())
    } else {
        let (s1, done) = match packet_at(buf, frames[i], offset) {
            Some(p) => {
                let (s1, o) = feed_step(s, p);
                (s1, match o { FeedOutcome::Frame(f) => seq![f], _ => Seq::empty() })
            },
            None => (s, Seq::empty()),
        };
        let (s2, rest) = run_transfer(s1, buf, frames, stride, i + 1, offset + stride);
        (s2, done + rest)
    }
}

/// Processes one completed isochronous transfer: the payload of microframe
/// `i` lies at byte `i * stride` of `buf`, and each one that completed with
/// data is fed to the assembler in order. Returns the frames completed on
/// the way. Malformed packets are skipped, as are packets that would reach
/// past the end of the buffer.
pub fn collect_transfer_frames(
    assembler: &mut FrameAssembler,
    buf: &[u8],
    frames: &[IsochFrameStatus],
    stride: usize,
) -> (out: Vec<Vec<u8>>)
    ensures
        final(assembler)@ == run_transfer(old(assembler)@, buf@, frames@, stride as int, 0, 0).0,
        out@.map_values(|v: Vec<u8>| v@) == run_transfer(old(assembler)@, buf@, frames@, stride as int, 0, 0).1,
{
    let mut out: Vec<Vec<u8>> = Vec::new();
    let mut offset: usize = 0;
    let ghost mut goff: int = 0;
    let mut i: usize = 0;
    while i < frames.len()
        invariant
            i <= frames.len(),
            offset == goff || (offset == usize::MAX && goff >= usize::MAX),
            goff >= 0,
            run_transfer(old(assembler)@, buf@, frames@, stride as int, 0, 0) == (
                run_transfer(assembler@, buf@, frames@, stride as int, i as int, goff).0,
                out@.map_values(|v: Vec<u8>| v@) + run_transfer(assembler@, buf@, frames@, stride as int, i as int, goff).1,
            ),
        decreases frames.len() - i,
    {
        let f = frames[i];
        let ghost s0 = assembler@;
        let ghost out0 = out@.map_values(|v: Vec<u8>| v@);
        if f.act_count > 0 && f.status == 0 && offset <= buf.len() && (f.act_count as usize) <= buf.len() - offset {
            let mut packet: Vec<u8> = Vec::new();
            let mut j: usize = 0;
            while j < f.act_count as usize
                invariant
                    j <= f.act_count,
                    offset + f.act_count <= buf.len(),
                    packet@ == buf@.subrange(offset as int, offset + j),
                decreases f.act_count - j,
            {
                packet.push(buf[offset + j]);
                j += 1;
                assert(packet@ =~= buf@.subrange(offset as int, offset + j));
            }
            assert(packet_at(buf@, f, goff) == Some(packet@));
            let r = assembler.feed(packet.as_slice());
            match r {
                Ok(Some(frame)) => {
                    out.push(frame);
                },
                _ => {},
            }
            assert(out@.map_values(|v: Vec<u8>| v@) =~= out0 + match feed_step(s0, packet@).1 {
                FeedOutcome::Frame(fr) => seq![fr],
                _ => Seq::<Seq<u8>>::empty(),
            });
        } else {
            assert(packet_at(buf@, f, goff) is None);
        }
        proof {
            assert(run_transfer(s0, buf@, frames@, stride as int, i as int, goff).1 =~=
                (out@.map_values(|v: Vec<u8>| v@).subrange(out0.len() as int, out@.len() as int))
                + run_transfer(assembler@, buf@, frames@, stride as int, i + 1, goff + stride).1);
            assert(out@.map_values(|v: Vec<u8>| v@) =~= out0 + out@.map_values(|v: Vec<u8>| v@).subrange(out0.len() as int, out@.len() as int));
            goff = goff + stride;
        }
        offset = if stride <= usize::MAX - offset { offset + stride } else { usize::MAX };
        i += 1;
    }
    out
}

/// The payload of a packet: the bytes after its header.
pub open spec fn payload_of(packet: Seq<u8>) -> Seq<u8> {
    packet.subrange(packet[0] as int, packet.len() as int)
}

/// Every frame the assembler emits has the expected frame size.
pub proof fn emitted_frames_have_expected_size(s: AssemblerState, packet: Seq<u8>)
    ensures
        feed_step(s, packet).1 matches FeedOutcome::Frame(f) ==> f.len() == s.expected_size,
{
}

/// Feeding a packet never changes the expected frame size.
pub proof fn expected_size_is_preserved(s: AssemblerState, packet: Seq<u8>)
    ensures
        feed_step(s, packet).0.expected_size == s.expected_size,
{
}

/// A packet with a malformed header is rejected and leaves the assembler as it was.
pub proof fn malformed_packet_changes_nothing(s: AssemblerState, packet: Seq<u8>)
    requires
        !header_ok(packet),
    ensures
        feed_step(s, packet).0 == s,
        feed_step(s, packet).1 is Malformed,
{
}

/// A packet with the error bit discards the frame in progress and yields nothing.
pub proof fn error_packet_discards_frame(s: AssemblerState, packet: Seq<u8>)
    requires
        header_ok(packet),
        packet[1] & BFH_ERR != 0,
    ensures
        feed_step(s, packet).0.buffer.len() == 0,
        feed_step(s, packet).1 is Pending,
{
}

/// A toggled frame ID starts a new frame: the incomplete data is dropped
/// and only the new packet's payload is kept.
pub proof fn fid_toggle_starts_new_frame(s: AssemblerState, packet: Seq<u8>, last: bool)
    requires
        header_ok(packet),
        packet[1] & BFH_ERR == 0,
        packet[1] & BFH_EOF == 0,
        s.last_fid == Some(last),
        (packet[1] & BFH_FID != 0) != last,
    ensures
        feed_step(s, packet).0.buffer == payload_of(packet),
        feed_step(s, packet).1 is Pending,
{
    assert(Seq::<u8>::empty() + payload_of(packet) =~= payload_of(packet));
}

/// With no frame in progress, a packet with the end-of-frame bit whose
/// payload has exactly the frame size is a whole frame: it is emitted as is.
pub proof fn single_packet_frame(s: AssemblerState, packet: Seq<u8>)
    requires
        s.buffer.len() == 0,
        header_ok(packet),
        packet[1] & BFH_ERR == 0,
        packet[1] & BFH_EOF != 0,
        payload_of(packet).len() == s.expected_size,
    ensures
        feed_step(s, packet).1 == FeedOutcome::Frame(payload_of(packet)),
        feed_step(s, packet).0.buffer.len() == 0,
{
    assert(s.buffer + payload_of(packet) =~= payload_of(packet));
    assert(Seq::<u8>::empty() + payload_of(packet) =~= payload_of(packet));
}

/// A frame whose data at end-of-frame does not have the expected size is
/// dropped, and assembly starts afresh.
pub proof fn wrong_size_frame_is_dropped(s: AssemblerState, packet: Seq<u8>)
    requires
        header_ok(packet),
        packet[1] & BFH_ERR == 0,
        packet[1] & BFH_EOF != 0,
        s.buffer.len() + payload_of(packet).len() != s.expected_size,
        s.last_fid is None || s.last_fid == Some(packet[1] & BFH_FID != 0),
    ensures
        feed_step(s, packet).1 is Pending,
        feed_step(s, packet).0.buffer.len() == 0,
{
}

/// After an error packet, the next whole single-packet frame is still
/// assembled correctly.
pub proof fn recovers_after_error(s: AssemblerState, error_packet: Seq<u8>, packet: Seq<u8>)
    requires
        header_ok(error_packet),
        error_packet[1] & BFH_ERR != 0,
        header_ok(packet),
        packet[1] & BFH_ERR == 0,
        packet[1] & BFH_EOF != 0,
        payload_of(packet).len() == s.expected_size,
    ensures
        feed_step(feed_step(s, error_packet).0, packet).1 == FeedOutcome::Frame(payload_of(packet)),
{
    error_packet_discards_frame(s, error_packet);
    expected_size_is_preserved(s, error_packet);
    single_packet_frame(feed_step(s, error_packet).0, packet);
}

/// The state after feeding the packets of `h` in order.
pub open spec fn feed_history(s: AssemblerState, h: Seq<Seq<u8>>) -> AssemblerState
    decreases h.len(),
{
    if h.len() == 0 {
        s
    } else {
        feed_step(feed_history(s, h.drop_last()), h.last()).0
    }
}

/// The frame ID bit of a packet.
pub open spec fn fid_of(p: Seq<u8>) -> bool {
    p[1] & BFH_FID != 0
}

/// A packet that closes a frame: it has the end-of-frame or the error bit.
pub open spec fn closes_frame(p: Seq<u8>) -> bool {
    p[1] & BFH_EOF != 0 || p[1] & BFH_ERR != 0
}

/// Index of the first packet of the frame that packet `i` of `h` belongs
/// to: the most recent packet that follows the start, a packet with EOF
/// or ERR, or a change of frame ID.
pub open spec fn frame_start(h: Seq<Seq<u8>>, i: int) -> int
    decreases i,
{
    if i <= 0 || closes_frame(h[i - 1]) || fid_of(h[i - 1]) != fid_of(h[i]) {
        i
    } else {
        frame_start(h, i - 1)
    }
}

/// The payloads of packets `a..b` of `h`, concatenated.
pub open spec fn payloads(h: Seq<Seq<u8>>, a: int, b: int) -> Seq<u8>
    decreases b - a,
{
    if b <= a {
        Seq::empty()
    } else {
        payloads(h, a, b - 1) + payload_of(h[b - 1])
    }
}

/// The partial frame held after the first `i` packets of `h`: nothing at
/// the start or after a packet with EOF or ERR, else the payloads of the
/// frame in progress.
pub open spec fn partial_frame(h: Seq<Seq<u8>>, i: int) -> Seq<u8> {
    if i <= 0 || closes_frame(h[i - 1]) {
        Seq::empty()
    } else {
        payloads(h, frame_start(h, i - 1), i)
    }
}

/// What packet `i` of `h` yields: the frame it completes when it has the
/// EOF bit, no ERR bit, and the payloads of its frame have the expected
/// size; nothing otherwise.
pub open spec fn frame_yield(h: Seq<Seq<u8>>, i: int, expected_size: nat) -> FeedOutcome {
    let p = h[i];
    let f = payloads(h, frame_start(h, i), i + 1);
    if p[1] & BFH_ERR == 0 && p[1] & BFH_EOF != 0 && f.len() == expected_size {
        FeedOutcome::Frame(f)
    } else {
        FeedOutcome::Pending
    }
}

proof fn lemma_frame_start_bounds(h: Seq<Seq<u8>>, i: int)
    requires
        i >= 0,
    ensures
        0 <= frame_start(h, i) <= i,
    decreases i,
{
    if !(i <= 0 || closes_frame(h[i - 1]) || fid_of(h[i - 1]) != fid_of(h[i])) {
        lemma_frame_start_bounds(h, i - 1);
    }
}

proof fn lemma_grown_is_frame_payloads(s: AssemblerState, h: Seq<Seq<u8>>, i: int)
    requires
        0 <= i < h.len(),
        header_ok(h[i]),
        s.buffer == partial_frame(h, i),
        s.last_fid == (if i == 0 { None } else { Some(fid_of(h[i - 1])) }),
    ensures
        (if s.last_fid is Some && s.last_fid->0 != fid_of(h[i]) && s.buffer.len() > 0 {
            Seq::<u8>::empty()
        } else {
            s.buffer
        }) + payload_of(h[i]) == payloads(h, frame_start(h, i), i + 1),
{
    let p = h[i];
    let kept = if s.last_fid is Some && s.last_fid->0 != fid_of(p) && s.buffer.len() > 0 {
        Seq::<u8>::empty()
    } else {
        s.buffer
    };
    let k = frame_start(h, i);
    if i <= 0 || closes_frame(h[i - 1]) || fid_of(h[i - 1]) != fid_of(h[i]) {
        assert(k == i);
        assert(kept.len() == 0);
        assert(kept =~= Seq::<u8>::empty());
        assert(payloads(h, i, i) =~= Seq::<u8>::empty());
        assert(kept + payload_of(p) =~= payloads(h, i, i + 1));
    } else {
        lemma_frame_start_bounds(h, i - 1);
        assert(k == frame_start(h, i - 1));
        assert(kept == payloads(h, k, i));
        assert(payloads(h, k, i + 1) == payloads(h, k, i) + payload_of(h[i]));
    }
}

proof fn lemma_history_step(s0: AssemblerState, h: Seq<Seq<u8>>, i: int)
    requires
        s0.buffer.len() == 0,
        s0.last_fid is None,
        forall|k: int| 0 <= k < h.len() ==> header_ok(#[trigger] h[k]),
        0 <= i <= h.len(),
    ensures
        feed_history(s0, h.subrange(0, i)).buffer == partial_frame(h, i),
        feed_history(s0, h.subrange(0, i)).expected_size == s0.expected_size,
        feed_history(s0, h.subrange(0, i)).last_fid == (if i == 0 { None } else { Some(fid_of(h[i - 1])) }),
    decreases i,
{
    if i > 0 {
        lemma_history_step(s0, h, i - 1);
        assert(h.subrange(0, i).drop_last() =~= h.subrange(0, i - 1));
        assert(h.subrange(0, i).last() == h[i - 1]);
        let s = feed_history(s0, h.subrange(0, i - 1));
        let p = h[i - 1];
        assert(header_ok(p));
        if p[1] & BFH_ERR == 0 {
            lemma_grown_is_frame_payloads(s, h, i - 1);
        }
    } else {
        assert(h.subrange(0, 0) =~= Seq::<Seq<u8>>::empty());
    }
}

/// Frame reassembly over a history of well-formed packets, starting from a
/// fresh assembler (as `new` and `reset` leave it): each packet yields a
/// frame exactly when it has the EOF bit, not the ERR bit, and the payloads
/// collected since the last packet with EOF or ERR and the last change of
/// frame ID, up to and including it, have the expected size; the frame is
/// those payloads. After a packet with EOF or ERR no partial data remains,
/// and the expected size never changes.
pub proof fn frame_reassembly(s0: AssemblerState, h: Seq<Seq<u8>>, i: int)
    requires
        s0.buffer.len() == 0,
        s0.last_fid is None,
        forall|k: int| 0 <= k < h.len() ==> header_ok(#[trigger] h[k]),
        0 <= i < h.len(),
    ensures
        feed_step(feed_history(s0, h.subrange(0, i)), h[i]).1 == frame_yield(h, i, s0.expected_size),
        feed_step(feed_history(s0, h.subrange(0, i)), h[i]).0 == feed_history(s0, h.subrange(0, i + 1)),
        closes_frame(h[i]) ==> feed_history(s0, h.subrange(0, i + 1)).buffer.len() == 0,
        feed_history(s0, h.subrange(0, i + 1)).expected_size == s0.expected_size,
{
    lemma_history_step(s0, h, i);
    lemma_history_step(s0, h, i + 1);
    assert(h.subrange(0, i + 1).drop_last() =~= h.subrange(0, i));
    assert(h.subrange(0, i + 1).last() == h[i]);
    assert(header_ok(h[i]));
    if h[i][1] & BFH_ERR == 0 {
        lemma_grown_is_frame_payloads(feed_history(s0, h.subrange(0, i)), h, i);
    }
}

/// Packets with a malformed header may be left out of a history: they
/// change nothing.
pub proof fn malformed_packets_are_ignored(s: AssemblerState, h: Seq<Seq<u8>>, j: int)
    requires
        0 <= j < h.len(),
        !header_ok(h[j]),
    ensures
        feed_history(s, h) == feed_history(s, h.remove(j)),
    decreases h.len(),
{
    if j == h.len() - 1 {
        assert(h.remove(j) =~= h.drop_last());
    } else {
        malformed_packets_are_ignored(s, h.drop_last(), j);
        assert(h.remove(j).drop_last() =~= h.drop_last().remove(j));
        assert(h.remove(j).last() == h.last());
    }
}

/// The packets that microframes `i..` of a transfer deliver (the `i`-th
/// at byte `offset`, each slot `stride` bytes long), in order: those that
/// completed successfully with data lying within the buffer.
pub open spec fn transfer_packets(
    buf: Seq<u8>,
    frames: Seq<IsochFrameStatus>,
    stride: int,
    i: int,
    offset: int,
) -> Seq<Seq<u8>>
    decreases frames.len() - i,
{
    if i < 0 || i >= frames.len() {
        Seq::empty()
    } else {
        let rest = transfer_packets(buf, frames, stride, i + 1, offset + stride);
        match packet_at(buf, frames[i], offset) {
            Some(p) => seq![p] + rest,
            None => rest,
        }
    }
}

/// The frames completed while feeding the packets of `h` in order.
pub open spec fn history_frames(s: AssemblerState, h: Seq<Seq<u8>>) -> Seq<Seq<u8>>
    decreases h.len(),
{
    if h.len() == 0 {
        Seq::empty()
    } else {
        history_frames(s, h.drop_last()) + match feed_step(feed_history(s, h.drop_last()), h.last()).1 {
            FeedOutcome::Frame(f) => seq![f],
            _ => Seq::empty(),
        }
    }
}

/// Feeding two histories one after the other is feeding their
/// concatenation: the state carries over and the frames add up.
pub proof fn histories_compose(s: AssemblerState, a: Seq<Seq<u8>>, b: Seq<Seq<u8>>)
    ensures
        feed_history(s, a + b) == feed_history(feed_history(s, a), b),
        history_frames(s, a + b) == history_frames(s, a) + history_frames(feed_history(s, a), b),
    decreases b.len(),
{
    if b.len() == 0 {
        assert(a + b =~= a);
        assert(history_frames(s, a) + Seq::<Seq<u8>>::empty() =~= history_frames(s, a));
    } else {
        histories_compose(s, a, b.drop_last());
        assert((a + b).drop_last() =~= a + b.drop_last());
        assert((a + b).last() == b.last());
        let t = feed_history(s, a);
        let o = match feed_step(feed_history(t, b.drop_last()), b.last()).1 {
            FeedOutcome::Frame(f) => seq![f],
            _ => Seq::<Seq<u8>>::empty(),
        };
        assert(history_frames(s, a) + history_frames(t, b.drop_last()) + o =~= history_frames(s, a)
            + (history_frames(t, b.drop_last()) + o));
    }
}

proof fn lemma_run_transfer_is_history(
    s: AssemblerState,
    buf: Seq<u8>,
    frames: Seq<IsochFrameStatus>,
    stride: int,
    i: int,
    offset: int,
)
    ensures
        run_transfer(s, buf, frames, stride, i, offset) == (
            feed_history(s, transfer_packets(buf, frames, stride, i, offset)),
            history_frames(s, transfer_packets(buf, frames, stride, i, offset)),
        ),
    decreases frames.len() - i,
{
    if i < 0 || i >= frames.len() {
    } else {
        let rest = transfer_packets(buf, frames, stride, i + 1, offset + stride);
        match packet_at(buf, frames[i], offset) {
            Some(p) => {
                let s1 = feed_step(s, p).0;
                lemma_run_transfer_is_history(s1, buf, frames, stride, i + 1, offset + stride);
                let one = seq![p];
                assert(one.drop_last() =~= Seq::<Seq<u8>>::empty());
                assert(one.last() == p);
                assert(feed_history(s, one.drop_last()) == s);
                assert(history_frames(s, one.drop_last()) == Seq::<Seq<u8>>::empty());
                assert(feed_history(s, one) == s1);
                let done = match feed_step(s, p).1 {
                    FeedOutcome::Frame(f) => seq![f],
                    _ => Seq::<Seq<u8>>::empty(),
                };
                assert(history_frames(s, one) =~= done);
                histories_compose(s, one, rest);
            },
            None => {
                lemma_run_transfer_is_history(s, buf, frames, stride, i + 1, offset + stride);
                assert(Seq::<Seq<u8>>::empty() + history_frames(s, rest) =~= history_frames(s, rest));
            },
        }
    }
}

/// Processing a transfer feeds exactly its delivered packets to the
/// assembler, in order, and discards nothing on its own: the state after
/// it is that of feeding those packets, the frames it returns are those
/// the packets complete, and a transfer that delivers no packet leaves
/// the assembler as it was.
pub proof fn transfer_feeds_its_packets(
    s: AssemblerState,
    buf: Seq<u8>,
    frames: Seq<IsochFrameStatus>,
    stride: int,
)
    ensures
        run_transfer(s, buf, frames, stride, 0, 0).0 == feed_history(s, transfer_packets(buf, frames, stride, 0, 0)),
        run_transfer(s, buf, frames, stride, 0, 0).1 == history_frames(s, transfer_packets(buf, frames, stride, 0, 0)),
        transfer_packets(buf, frames, stride, 0, 0).len() == 0 ==> run_transfer(s, buf, frames, stride, 0, 0) == (s, Seq::<Seq<u8>>::empty()),
{
    lemma_run_transfer_is_history(s, buf, frames, stride, 0, 0);
}

/// Two transfers processed one after the other on the same assembler act
/// as one history made of the first transfer's packets followed by the
/// second's: a frame whose packets straddle the two transfers is
/// delivered just as if they had come in one.
pub proof fn consecutive_transfers_continue_frames(
    s: AssemblerState,
    buf_a: Seq<u8>,
    frames_a: Seq<IsochFrameStatus>,
    buf_b: Seq<u8>,
    frames_b: Seq<IsochFrameStatus>,
    stride: int,
)
    ensures
        run_transfer(run_transfer(s, buf_a, frames_a, stride, 0, 0).0, buf_b, frames_b, stride, 0, 0).0
            == feed_history(s, transfer_packets(buf_a, frames_a, stride, 0, 0) + transfer_packets(buf_b, frames_b, stride, 0, 0)),
        run_transfer(s, buf_a, frames_a, stride, 0, 0).1
            + run_transfer(run_transfer(s, buf_a, frames_a, stride, 0, 0).0, buf_b, frames_b, stride, 0, 0).1
            == history_frames(s, transfer_packets(buf_a, frames_a, stride, 0, 0) + transfer_packets(buf_b, frames_b, stride, 0, 0)),
{
    let ha = transfer_packets(buf_a, frames_a, stride, 0, 0);
    let hb = transfer_packets(buf_b, frames_b, stride, 0, 0);
    transfer_feeds_its_packets(s, buf_a, frames_a, stride);
    transfer_feeds_its_packets(feed_history(s, ha), buf_b, frames_b, stride);
    histories_compose(s, ha, hb);
}

proof fn lemma_packets_from_slot(buf: Seq<u8>, frames: Seq<IsochFrameStatus>, stride: int, j: int)
    requires
        stride >= 0,
        0 <= j <= frames.len(),
        forall|i: int|
            0 <= i < frames.len() ==> (#[trigger] frames[i]).status == 0 && frames[i].act_count > 0
                && i * stride + frames[i].act_count <= buf.len(),
    ensures
        transfer_packets(buf, frames, stride, j, j * stride).len() == frames.len() - j,
        forall|k: int|
            0 <= k < frames.len() - j ==> #[trigger] transfer_packets(buf, frames, stride, j, j * stride)[k]
                == buf.subrange((j + k) * stride, (j + k) * stride + frames[j + k].act_count),
    decreases frames.len() - j,
{
    if j < frames.len() {
        assert(j * stride + stride == (j + 1) * stride) by (nonlinear_arith);
        lemma_packets_from_slot(buf, frames, stride, j + 1);
        let f = frames[j];
        assert(packet_at(buf, f, j * stride) == Some(buf.subrange(j * stride, j * stride + f.act_count)));
        let rest = transfer_packets(buf, frames, stride, j + 1, (j + 1) * stride);
        assert forall|k: int| 0 <= k < frames.len() - j implies #[trigger] transfer_packets(buf, frames, stride, j, j * stride)[k]
            == buf.subrange((j + k) * stride, (j + k) * stride + frames[j + k].act_count) by {
            if k > 0 {
                assert(transfer_packets(buf, frames, stride, j, j * stride)[k] == rest[k - 1]);
                assert(j + 1 + (k - 1) == j + k);
            }
        }
    }
}

/// Where a transfer's packets lie: when every microframe completed
/// successfully with data inside the buffer, microframe `i` delivers the
/// `act_count` bytes at byte `i * stride`, and the packets come in
/// microframe order, one per microframe.
pub proof fn transfer_packets_lie_at_slots(buf: Seq<u8>, frames: Seq<IsochFrameStatus>, stride: int)
    requires
        stride >= 0,
        forall|i: int|
            0 <= i < frames.len() ==> (#[trigger] frames[i]).status == 0 && frames[i].act_count > 0
                && i * stride + frames[i].act_count <= buf.len(),
    ensures
        transfer_packets(buf, frames, stride, 0, 0).len() == frames.len(),
        forall|i: int|
            0 <= i < frames.len() ==> #[trigger] transfer_packets(buf, frames, stride, 0, 0)[i]
                == buf.subrange(i * stride, i * stride + frames[i].act_count),
{
    assert(0 * stride == 0);
    lemma_packets_from_slot(buf, frames, stride, 0);
    assert forall|i: int| 0 <= i < frames.len() implies #[trigger] transfer_packets(buf, frames, stride, 0, 0)[i]
        == buf.subrange(i * stride, i * stride + frames[i].act_count) by {
        assert(0 + i == i);
    }
}

/// A microframe that failed, or that delivered no data, contributes no
/// packet: the transfer delivers what the remaining microframes deliver.
pub proof fn failed_microframe_delivers_nothing(
    buf: Seq<u8>,
    frames: Seq<IsochFrameStatus>,
    stride: int,
    i: int,
    offset: int,
)
    requires
        0 <= i < frames.len(),
        frames[i].status != 0 || frames[i].act_count == 0,
    ensures
        transfer_packets(buf, frames, stride, i, offset) == transfer_packets(buf, frames, stride, i + 1, offset + stride),
{
}

} // verus!
