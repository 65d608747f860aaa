use thermal_v2_lib::uvc_payload::{
    collect_transfer_frames, parse_payload_header, FrameAssembler, IsochFrameStatus, BFH_EOF, BFH_EOH,
    BFH_ERR, BFH_FID, BFH_PTS, BFH_SCR,
};

#[test]
fn parse_minimal_header() {
    // 2-byte header with FID set, no PTS/SCR
    let data = [2u8, BFH_FID | BFH_EOH];
    let (header, offset) = parse_payload_header(&data).unwrap();
    assert_eq!(header.header_len, 2);
    assert!(header.fid);
    assert!(!header.eof);
    assert!(!header.err);
    assert_eq!(header.pts, None);
    assert_eq!(header.scr, None);
    assert_eq!(offset, 2);
}

#[test]
fn parse_header_with_pts() {
    // 12-byte header with PTS=42 and SCR
    let mut data = vec![12u8, BFH_FID | BFH_PTS | BFH_SCR | BFH_EOH];
    // PTS (4 bytes LE)
    data.extend_from_slice(&42u32.to_le_bytes());
    // SCR (6 bytes)
    data.extend_from_slice(&[1, 2, 3, 4, 5, 6]);
    let (header, offset) = parse_payload_header(&data).unwrap();
    assert_eq!(header.header_len, 12);
    assert!(header.fid);
    assert_eq!(header.pts, Some(42));
    assert_eq!(header.scr, Some([1, 2, 3, 4, 5, 6]));
    assert_eq!(offset, 12);
}

#[test]
fn parse_header_error_flag() {
    let data = [2u8, BFH_ERR | BFH_EOH];
    let (header, _) = parse_payload_header(&data).unwrap();
    assert!(header.err);
}

#[test]
fn parse_empty_data_fails() {
    assert!(parse_payload_header(&[]).is_err());
    assert!(parse_payload_header(&[1]).is_err());
}

#[test]
fn parse_error_messages() {
    assert_eq!(parse_payload_header(&[7]).unwrap_err(), "Payload too short for UVC header");
    assert_eq!(parse_payload_header(&[200, 0, 0]).unwrap_err(), "Invalid header length: 200");
    assert_eq!(parse_payload_header(&[1, 0, 0]).unwrap_err(), "Invalid header length: 1");
}

#[test]
fn parse_pts_without_room_is_absent() {
    // PTS flag set but the header is too short to hold it; SCR then also absent
    let data = [4u8, BFH_PTS | BFH_SCR, 9, 9, 0xAA];
    let (header, offset) = parse_payload_header(&data).unwrap();
    assert_eq!(header.pts, None);
    assert_eq!(header.scr, None);
    assert_eq!(offset, 4);
}

#[test]
fn parse_scr_without_pts() {
    let data = [8u8, BFH_SCR | BFH_EOF, 1, 2, 3, 4, 5, 6, 0x77];
    let (header, offset) = parse_payload_header(&data).unwrap();
    assert!(header.eof);
    assert_eq!(header.pts, None);
    assert_eq!(header.scr, Some([1, 2, 3, 4, 5, 6]));
    assert_eq!(offset, 8);
}

#[test]
fn assemble_single_packet_frame() {
    // 2x2 Y16 frame (8 bytes) in a single packet with EOF
    let mut assembler = FrameAssembler::new(2, 2);
    let mut packet = vec![2u8, BFH_FID | BFH_EOF | BFH_EOH];
    packet.extend_from_slice(&[0x10, 0x20, 0x30, 0x40, 0x50, 0x60, 0x70, 0x80]);
    let result = assembler.feed(&packet).unwrap();
    assert!(result.is_some());
    let frame = result.unwrap();
    assert_eq!(frame.len(), 8);
    assert_eq!(frame, &[0x10, 0x20, 0x30, 0x40, 0x50, 0x60, 0x70, 0x80]);
}

#[test]
fn assemble_multi_packet_frame() {
    // 2x2 Y16 frame split across 2 packets
    let mut assembler = FrameAssembler::new(2, 2);

    // First packet: first 4 bytes of payload, no EOF
    let mut pkt1 = vec![2u8, BFH_FID | BFH_EOH];
    pkt1.extend_from_slice(&[0x10, 0x20, 0x30, 0x40]);
    assert!(assembler.feed(&pkt1).unwrap().is_none());

    // Second packet: last 4 bytes of payload, with EOF
    let mut pkt2 = vec![2u8, BFH_FID | BFH_EOF | BFH_EOH];
    pkt2.extend_from_slice(&[0x50, 0x60, 0x70, 0x80]);
    let result = assembler.feed(&pkt2).unwrap();
    assert!(result.is_some());
    let frame = result.unwrap();
    assert_eq!(frame, &[0x10, 0x20, 0x30, 0x40, 0x50, 0x60, 0x70, 0x80]);
}

#[test]
fn assemble_discards_on_error() {
    // ERR bit discards buffer, next frame works
    let mut assembler = FrameAssembler::new(2, 2);

    // Start a frame
    let mut pkt1 = vec![2u8, BFH_FID | BFH_EOH];
    pkt1.extend_from_slice(&[0x10, 0x20, 0x30, 0x40]);
    assert!(assembler.feed(&pkt1).unwrap().is_none());

    // Error packet — should discard buffer
    let err_pkt = vec![2u8, BFH_FID | BFH_ERR | BFH_EOH];
    assert!(assembler.feed(&err_pkt).unwrap().is_none());

    // New frame should still work
    let mut pkt2 = vec![2u8, BFH_FID | BFH_EOF | BFH_EOH];
    pkt2.extend_from_slice(&[0xA0, 0xB0, 0xC0, 0xD0, 0xE0, 0xF0, 0x01, 0x02]);
    let result = assembler.feed(&pkt2).unwrap();
    assert!(result.is_some());
    assert_eq!(result.unwrap(), &[0xA0, 0xB0, 0xC0, 0xD0, 0xE0, 0xF0, 0x01, 0x02]);
}

#[test]
fn assemble_fid_toggle_starts_new_frame() {
    // FID toggle discards incomplete frame, starts new one
    let mut assembler = FrameAssembler::new(2, 2);

    // Start frame with FID=1
    let mut pkt1 = vec![2u8, BFH_FID | BFH_EOH];
    pkt1.extend_from_slice(&[0x10, 0x20, 0x30, 0x40]);
    assert!(assembler.feed(&pkt1).unwrap().is_none());

    // FID toggles to 0 — incomplete frame discarded, new frame starts
    let mut pkt2 = vec![2u8, BFH_EOH]; // FID=0
    pkt2.extend_from_slice(&[0xA0, 0xB0, 0xC0, 0xD0]);
    assert!(assembler.feed(&pkt2).unwrap().is_none());

    // Complete the new frame with FID=0
    let mut pkt3 = vec![2u8, BFH_EOF | BFH_EOH]; // FID=0, EOF
    pkt3.extend_from_slice(&[0xE0, 0xF0, 0x01, 0x02]);
    let result = assembler.feed(&pkt3).unwrap();
    assert!(result.is_some());
    assert_eq!(result.unwrap(), &[0xA0, 0xB0, 0xC0, 0xD0, 0xE0, 0xF0, 0x01, 0x02]);
}

#[test]
fn assemble_drops_wrong_size_frame() {
    // EOF with wrong size drops the frame
    let mut assembler = FrameAssembler::new(2, 2); // expects 8 bytes

    // Send only 4 bytes then EOF
    let mut pkt = vec![2u8, BFH_FID | BFH_EOF | BFH_EOH];
    pkt.extend_from_slice(&[0x10, 0x20, 0x30, 0x40]);
    let result = assembler.feed(&pkt).unwrap();
    assert!(result.is_none());
}

#[test]
fn assemble_malformed_packet_is_error_and_keeps_state() {
    let mut assembler = FrameAssembler::new(2, 2);
    let mut pkt1 = vec![2u8, BFH_FID];
    pkt1.extend_from_slice(&[1, 2, 3, 4]);
    assert!(assembler.feed(&pkt1).unwrap().is_none());
    assert_eq!(assembler.feed(&[9u8, 0]).unwrap_err(), "Invalid header length: 9");
    let mut pkt2 = vec![2u8, BFH_FID | BFH_EOF];
    pkt2.extend_from_slice(&[5, 6, 7, 8]);
    assert_eq!(assembler.feed(&pkt2).unwrap(), Some(vec![1, 2, 3, 4, 5, 6, 7, 8]));
}

#[test]
fn assemble_reset_discards_partial_frame() {
    let mut assembler = FrameAssembler::new(2, 2);
    let mut pkt1 = vec![2u8, BFH_FID];
    pkt1.extend_from_slice(&[1, 2, 3, 4]);
    assert!(assembler.feed(&pkt1).unwrap().is_none());
    assembler.reset();
    let mut pkt2 = vec![2u8, BFH_FID | BFH_EOF];
    pkt2.extend_from_slice(&[5, 6, 7, 8]);
    assert!(assembler.feed(&pkt2).unwrap().is_none());
}

#[test]
fn transfer_feeds_successful_microframes_in_order() {
    let mut assembler = FrameAssembler::new(2, 1); // 4-byte frames
    let stride = 8;
    let mut buf = vec![0u8; 4 * stride];
    // slot 0: first half of frame A
    buf[0..4].copy_from_slice(&[2, BFH_FID, 0x11, 0x22]);
    // slot 1: reported with an error status: skipped
    buf[8..12].copy_from_slice(&[2, BFH_FID, 0xEE, 0xEE]);
    // slot 2: second half of frame A, end of frame
    buf[16..20].copy_from_slice(&[2, BFH_FID | BFH_EOF, 0x33, 0x44]);
    // slot 3: a whole frame B
    buf[24..30].copy_from_slice(&[2, BFH_EOF, 0x55, 0x66, 0x77, 0x88]);
    let frames = [
        IsochFrameStatus { status: 0, act_count: 4 },
        IsochFrameStatus { status: -1, act_count: 4 },
        IsochFrameStatus { status: 0, act_count: 4 },
        IsochFrameStatus { status: 0, act_count: 6 },
    ];
    let out = collect_transfer_frames(&mut assembler, &buf, &frames, stride);
    assert_eq!(out, vec![vec![0x11, 0x22, 0x33, 0x44], vec![0x55, 0x66, 0x77, 0x88]]);
}

#[test]
fn transfer_skips_empty_and_overlong_microframes() {
    let mut assembler = FrameAssembler::new(1, 1); // 2-byte frames
    let buf = vec![2u8, BFH_EOF, 0xAB, 0xCD];
    let frames = [
        IsochFrameStatus { status: 0, act_count: 0 },
        IsochFrameStatus { status: 0, act_count: 9 },
    ];
    // the first slot is empty; the second would reach past the buffer
    let out = collect_transfer_frames(&mut assembler, &buf, &frames, 0);
    assert!(out.is_empty());
    let frames = [IsochFrameStatus { status: 0, act_count: 4 }];
    let out = collect_transfer_frames(&mut assembler, &buf, &frames, 0);
    assert_eq!(out, vec![vec![0xAB, 0xCD]]);
}
