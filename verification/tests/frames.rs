//! Frame parsing, checksum repair and routing decisions.

use vbridge::internet_checksum;
use vbridge::mac_is_multicast;
use vbridge::process_frame;
use vbridge::DropReason;
use vbridge::FrameAction;

fn mac_key(b: [u8; 6]) -> u64 {
    let mut k: u64 = 0;
    for x in b {
        k = k * 256 + x as u64;
    }
    k
}

/// An Ethernet II frame with a 20-byte IPv4 header carrying TCP, the
/// checksum field set to `bad_checksum`.
fn tcp_frame(dst: [u8; 6], src: [u8; 6], payload: &[u8], bad_checksum: [u8; 2]) -> Vec<u8> {
    let mut f: Vec<u8> = Vec::new();
    f.extend_from_slice(&dst);
    f.extend_from_slice(&src);
    f.extend_from_slice(&[0x08, 0x00]);
    let total_len = (20 + 20 + payload.len()) as u16;
    f.extend_from_slice(&[0x45, 0x00]);
    f.extend_from_slice(&total_len.to_be_bytes());
    f.extend_from_slice(&[0x00, 0x00, 0x40, 0x00, 0x40, 0x06, 0x00, 0x00]);
    f.extend_from_slice(&[10, 0, 0, 1]);
    f.extend_from_slice(&[10, 0, 0, 2]);
    // TCP: ports 1000 -> 2000, seq 1, ack 0, offset 5, flags PSH|ACK
    f.extend_from_slice(&[0x03, 0xe8, 0x07, 0xd0]);
    f.extend_from_slice(&[0x00, 0x00, 0x00, 0x01]);
    f.extend_from_slice(&[0x00, 0x00, 0x00, 0x00]);
    f.extend_from_slice(&[0x50, 0x18, 0x10, 0x00]);
    f.extend_from_slice(&bad_checksum);
    f.extend_from_slice(&[0x00, 0x00]);
    f.extend_from_slice(payload);
    f
}

#[test]
fn checksum_known_value() {
    // Words 0x0001 and 0xf203 sum to 0xf204; the complement is 0x0dfb.
    let b: Vec<u8> = vec![0x00, 0x01, 0xf2, 0x03];
    assert_eq!(internet_checksum(&b), 0x0dfb);
}

#[test]
fn checksum_odd_length_pads_low_byte() {
    // 0x0100 padded from the single byte 0x01; complement is 0xfeff.
    let b: Vec<u8> = vec![0x01];
    assert_eq!(internet_checksum(&b), 0xfeff);
}

#[test]
fn checksum_empty_is_all_ones() {
    let b: Vec<u8> = Vec::new();
    assert_eq!(internet_checksum(&b), 0xffff);
}

#[test]
fn checksum_folds_carries() {
    // 0xffff + 0xffff = 0x1fffe; folding gives 0xffff, complement 0.
    let b: Vec<u8> = vec![0xff, 0xff, 0xff, 0xff];
    assert_eq!(internet_checksum(&b), 0x0000);
}

#[test]
fn group_bit_decides_multicast() {
    assert!(mac_is_multicast(0xffff_ffff_ffff)); // broadcast
    assert!(mac_is_multicast(0x0100_5e00_0001)); // IPv4 multicast range
    assert!(!mac_is_multicast(0xaaaa_aaaa_aa01));
    assert!(!mac_is_multicast(0x0200_0000_0000));
}

#[test]
fn tcp_checksum_repaired_to_etherparse_value() {
    let a = [0xaa, 0xaa, 0xaa, 0xaa, 0xaa, 0x01];
    let b = [0xaa, 0xaa, 0xaa, 0xaa, 0xaa, 0x02];
    let frame = tcp_frame(b, a, b"hello", [0xde, 0xad]);
    let (_, rest) = etherparse::Ethernet2Header::from_slice(&frame).unwrap();
    let (ip, rest) = etherparse::Ipv4Header::from_slice(rest).unwrap();
    let (tcp, payload) = etherparse::TcpHeader::from_slice(rest).unwrap();
    let expected = tcp.calc_checksum_ipv4(&ip, payload).unwrap();
    match process_frame(frame.clone()) {
        FrameAction::Deliver { destination, frame: out } => {
            assert_eq!(destination, mac_key(b));
            assert_eq!(out.len(), frame.len());
            let off = 14 + 20 + 16;
            assert_eq!([out[off], out[off + 1]], expected.to_be_bytes());
            for i in 0..frame.len() {
                if i != off && i != off + 1 {
                    assert_eq!(out[i], frame[i], "byte {} changed", i);
                }
            }
        }
        _ => panic!("expected unicast delivery"),
    }
}

#[test]
fn non_ipv4_frame_passes_unchanged() {
    let mut frame: Vec<u8> = Vec::new();
    frame.extend_from_slice(&[0xaa, 0xaa, 0xaa, 0xaa, 0xaa, 0x02]);
    frame.extend_from_slice(&[0xaa, 0xaa, 0xaa, 0xaa, 0xaa, 0x01]);
    frame.extend_from_slice(&[0x08, 0x06]);
    frame.extend_from_slice(&[1, 2, 3, 4, 5, 6, 7, 8]);
    match process_frame(frame.clone()) {
        FrameAction::Deliver { destination, frame: out } => {
            assert_eq!(destination, mac_key([0xaa, 0xaa, 0xaa, 0xaa, 0xaa, 0x02]));
            assert_eq!(out, frame);
        }
        _ => panic!("expected unicast delivery"),
    }
}

#[test]
fn non_tcp_ipv4_frame_passes_unchanged() {
    let mut frame = tcp_frame(
        [0xaa, 0xaa, 0xaa, 0xaa, 0xaa, 0x02],
        [0xaa, 0xaa, 0xaa, 0xaa, 0xaa, 0x01],
        b"x",
        [0x12, 0x34],
    );
    frame[23] = 17;  // UDP protocol number: no repair
    match process_frame(frame.clone()) {
        FrameAction::Deliver { frame: out, .. } => assert_eq!(out, frame),
        _ => panic!("expected unicast delivery"),
    }
}

#[test]
fn broadcast_destination_goes_to_fanout() {
    let mut frame: Vec<u8> = Vec::new();
    frame.extend_from_slice(&[0xff, 0xff, 0xff, 0xff, 0xff, 0xff]);
    frame.extend_from_slice(&[0xaa, 0xaa, 0xaa, 0xaa, 0xaa, 0x01]);
    frame.extend_from_slice(&[0x08, 0x06]);
    frame.extend_from_slice(&[0; 10]);
    match process_frame(frame.clone()) {
        FrameAction::Broadcast { frame: out } => assert_eq!(out, frame),
        _ => panic!("expected broadcast"),
    }
}

#[test]
fn short_frame_discarded() {
    let frame: Vec<u8> = vec![0xff; 13];
    match process_frame(frame) {
        FrameAction::Discard { reason } => assert_eq!(reason, DropReason::TooShort),
        _ => panic!("expected discard"),
    }
}

#[test]
fn empty_frame_discarded() {
    match process_frame(Vec::new()) {
        FrameAction::Discard { reason } => assert_eq!(reason, DropReason::TooShort),
        _ => panic!("expected discard"),
    }
}

#[test]
fn bad_ipv4_version_discarded() {
    let mut frame = tcp_frame(
        [0xaa, 0xaa, 0xaa, 0xaa, 0xaa, 0x02],
        [0xaa, 0xaa, 0xaa, 0xaa, 0xaa, 0x01],
        b"x",
        [0, 0],
    );
    frame[14] = 0x65;  // version 6
    match process_frame(frame) {
        FrameAction::Discard { reason } => assert_eq!(reason, DropReason::BadIpv4Header),
        _ => panic!("expected discard"),
    }
}

#[test]
fn truncated_ipv4_discarded() {
    let frame = tcp_frame(
        [0xaa, 0xaa, 0xaa, 0xaa, 0xaa, 0x02],
        [0xaa, 0xaa, 0xaa, 0xaa, 0xaa, 0x01],
        b"x",
        [0, 0],
    );
    let frame = frame[..20].to_vec();
    match process_frame(frame) {
        FrameAction::Discard { reason } => assert_eq!(reason, DropReason::BadIpv4Header),
        _ => panic!("expected discard"),
    }
}

#[test]
fn bad_tcp_data_offset_discarded() {
    let mut frame = tcp_frame(
        [0xaa, 0xaa, 0xaa, 0xaa, 0xaa, 0x02],
        [0xaa, 0xaa, 0xaa, 0xaa, 0xaa, 0x01],
        b"x",
        [0, 0],
    );
    frame[14 + 20 + 12] = 0x30;  // data offset 3, below the minimum of 5
    match process_frame(frame) {
        FrameAction::Discard { reason } => assert_eq!(reason, DropReason::BadTcpHeader),
        _ => panic!("expected discard"),
    }
}

#[test]
fn oversized_tcp_segment_discarded() {
    let frame = tcp_frame(
        [0xaa, 0xaa, 0xaa, 0xaa, 0xaa, 0x02],
        [0xaa, 0xaa, 0xaa, 0xaa, 0xaa, 0x01],
        &vec![0u8; 0x10000],
        [0, 0],
    );
    match process_frame(frame) {
        FrameAction::Discard { reason } => assert_eq!(reason, DropReason::OversizedTcpSegment),
        _ => panic!("expected discard"),
    }
}
