//! Per-frame switching logic.
//!
//! One pass over an Ethernet II frame: parse the header, and for TCP over
//! IPv4 recompute the TCP checksum over the IPv4 pseudo-header and the
//! segment and write it back in place; then pick the destination, either
//! the broadcast channel (group bit set) or the member owning the
//! destination address. Malformed frames are discarded, never fatal.

use vstd::prelude::*;

use crate::checksum::internet_checksum;
use crate::checksum::spec_checksum;
use crate::wire::mac_at;
use crate::wire::mac_is_multicast;
use crate::wire::spec_mac_at;
use crate::wire::spec_mac_is_multicast;

verus! {

/// EtherType of IPv4.
pub const ETHERTYPE_IPV4: u16 = 0x0800;

/// IPv4 protocol number of TCP.
pub const IP_PROTOCOL_TCP: u8 = 6;

/// The big-endian 16-bit field at offset `i`.
pub open spec fn spec_be16(b: Seq<u8>, i: int) -> int {
    (b[i] as int) * 0x100 + (b[i + 1] as int)
}

/// An Ethernet II header is present: at least 14 bytes.
pub open spec fn eth_parse_ok(f: Seq<u8>) -> bool {
    f.len() >= 14
}

/// The destination link-layer address, bytes 0 to 5.
pub open spec fn eth_destination(f: Seq<u8>) -> u64 {
    spec_mac_at(f, 0)
}

/// The EtherType field, bytes 12 and 13.
pub open spec fn eth_ether_type(f: Seq<u8>) -> int {
    spec_be16(f, 12)
}

/// The frame announces an IPv4 payload.
pub open spec fn is_ipv4_frame(f: Seq<u8>) -> bool {
    eth_parse_ok(f) && eth_ether_type(f) == ETHERTYPE_IPV4 as int
}

/// The IPv4 version field, the high nibble of the first header byte.
pub open spec fn ipv4_version(f: Seq<u8>) -> int {
    (f[14] as int) / 16
}

/// The IPv4 header-length field in 4-byte units, the low nibble.
pub open spec fn ipv4_ihl(f: Seq<u8>) -> int {
    (f[14] as int) % 16
}

/// The IPv4 header length in bytes, options included.
pub open spec fn ipv4_header_len(f: Seq<u8>) -> int {
    ipv4_ihl(f) * 4
}

/// The IPv4 total-length field.
pub open spec fn ipv4_total_len(f: Seq<u8>) -> int {
    spec_be16(f, 16)
}

/// The IPv4 protocol field.
pub open spec fn ipv4_protocol(f: Seq<u8>) -> int {
    f[23] as int
}

/// The IPv4 header of the frame is well formed: enough bytes, version 4,
/// a header length of at least 20 bytes that the frame and the
/// total-length field both cover.
pub open spec fn ipv4_parse_ok(f: Seq<u8>) -> bool {
    &&& f.len() >= 34
    &&& ipv4_version(f) == 4
    &&& ipv4_ihl(f) >= 5
    &&& f.len() >= 14 + ipv4_header_len(f)
    &&& ipv4_total_len(f) >= ipv4_header_len(f)
}

/// The frame carries TCP over a well-formed IPv4 header.
pub open spec fn is_tcp_frame(f: Seq<u8>) -> bool {
    is_ipv4_frame(f) && ipv4_parse_ok(f) && ipv4_protocol(f) == IP_PROTOCOL_TCP as int
}

/// Offset of the TCP header within the frame.
pub open spec fn tcp_offset(f: Seq<u8>) -> int {
    14 + ipv4_header_len(f)
}

/// Length of the TCP segment: header plus payload, to the end of the frame.
pub open spec fn tcp_segment_len(f: Seq<u8>) -> int {
    f.len() - tcp_offset(f)
}

/// The TCP data-offset field in 4-byte units.
pub open spec fn tcp_data_offset(f: Seq<u8>) -> int {
    (f[tcp_offset(f) + 12] as int) / 16
}

/// The TCP header is well formed: enough bytes and a data offset of at
/// least 20 bytes that the frame covers.
pub open spec fn tcp_header_ok(f: Seq<u8>) -> bool {
    &&& f.len() >= tcp_offset(f) + 20
    &&& tcp_data_offset(f) >= 5
    &&& f.len() >= tcp_offset(f) + tcp_data_offset(f) * 4
}

/// The segment length fits the 16-bit field of the pseudo-header.
pub open spec fn tcp_segment_fits(f: Seq<u8>) -> bool {
    tcp_segment_len(f) <= 0xFFFF
}

/// The frame is TCP over IPv4 and its checksum can be recomputed.
pub open spec fn tcp_parse_ok(f: Seq<u8>) -> bool {
    is_tcp_frame(f) && tcp_header_ok(f) && tcp_segment_fits(f)
}

/// Offset of the TCP checksum field within the frame.
pub open spec fn tcp_checksum_offset(f: Seq<u8>) -> int {
    tcp_offset(f) + 16
}

/// Byte `i` of the data the TCP checksum covers: the IPv4 pseudo-header
/// (source and destination address, a zero byte, the protocol number,
/// and the segment length), then the segment itself with the checksum
/// field read as zero.
pub open spec fn checksum_input_byte(f: Seq<u8>, i: int) -> u8 {
    if 0 <= i < 8 {
        f[26 + i]
    } else if i == 8 {
        0u8
    } else if i == 9 {
        IP_PROTOCOL_TCP
    } else if i == 10 {
        (tcp_segment_len(f) / 0x100) as u8
    } else if i == 11 {
        (tcp_segment_len(f) % 0x100) as u8
    } else if i == 28 || i == 29 {
        0u8
    } else {
        f[tcp_offset(f) + (i - 12)]
    }
}

/// The data the TCP checksum covers.
pub open spec fn checksum_input(f: Seq<u8>) -> Seq<u8> {
    Seq::new((12 + tcp_segment_len(f)) as nat, |i: int| checksum_input_byte(f, i))
}

/// The checksum a well-formed TCP segment of this frame must carry.
pub open spec fn spec_tcp_checksum(f: Seq<u8>) -> u16 {
    spec_checksum(checksum_input(f))
}

/// The frame as the bridge forwards it: TCP over IPv4 gets the two
/// checksum bytes rewritten, everything else passes unchanged.
pub open spec fn repaired_frame(f: Seq<u8>) -> Seq<u8> {
    if tcp_parse_ok(f) {
        f.update(tcp_checksum_offset(f), ((spec_tcp_checksum(f) as int) / 0x100) as u8).update(
            tcp_checksum_offset(f) + 1,
            ((spec_tcp_checksum(f) as int) % 0x100) as u8,
        )
    } else {
        f
    }
}

/// Why a frame was discarded.
#[derive(Clone, Copy, Debug, PartialEq, Eq, Structural)]
pub enum DropReason {
    /// Shorter than an Ethernet II header.
    TooShort,
    /// An IPv4 EtherType over a broken IPv4 header.
    BadIpv4Header,
    /// A TCP protocol number over a broken TCP header.
    BadTcpHeader,
    /// A TCP segment longer than the pseudo-header can state.
    OversizedTcpSegment,
}

/// What the switching pass decided to do with one frame.
pub enum FrameAction {
    /// The frame is dropped; processing of later frames goes on.
    Discard { reason: DropReason },
    /// The frame goes to the broadcast channel, every subscriber gets it.
    Broadcast { frame: Vec<u8> },
    /// The frame goes to the egress queue of the member owning `destination`.
    Deliver { destination: u64, frame: Vec<u8> },
}

/// `FrameAction` with the frame as a byte sequence.
pub enum FrameActionView {
    Discard { reason: DropReason },
    Broadcast { frame: Seq<u8> },
    Deliver { destination: u64, frame: Seq<u8> },
}

impl View for FrameAction {
    type V = FrameActionView;

    open spec fn view(&self) -> FrameActionView {
        match self {
            FrameAction::Discard { reason } => FrameActionView::Discard { reason: *reason },
            FrameAction::Broadcast { frame } => FrameActionView::Broadcast { frame: frame@ },
            FrameAction::Deliver { destination, frame } => FrameActionView::Deliver {
                destination: *destination,
                frame: frame@,
            },
        }
    }
}

/// The decision the switching pass owes for a frame: discard anything
/// malformed, otherwise repair the checksum if called for and route by
/// the destination address's group bit.
pub open spec fn spec_route(f: Seq<u8>) -> FrameActionView {
    if !eth_parse_ok(f) {
        FrameActionView::Discard { reason: DropReason::TooShort }
    } else if is_ipv4_frame(f) && !ipv4_parse_ok(f) {
        FrameActionView::Discard { reason: DropReason::BadIpv4Header }
    } else if is_tcp_frame(f) && !tcp_header_ok(f) {
        FrameActionView::Discard { reason: DropReason::BadTcpHeader }
    } else if is_tcp_frame(f) && !tcp_segment_fits(f) {
        FrameActionView::Discard { reason: DropReason::OversizedTcpSegment }
    } else if spec_mac_is_multicast(eth_destination(f)) {
        FrameActionView::Broadcast { frame: repaired_frame(f) }
    } else {
        FrameActionView::Deliver { destination: eth_destination(f), frame: repaired_frame(f) }
    }
}

/// Performs one switching pass over `frame`.
pub fn process_frame(frame: Vec<u8>) -> (r: FrameAction)
    ensures
        r@ == spec_route(frame@),
{
    let ghost orig: Seq<u8> = frame@;
    let mut frame = frame;
    let n: usize = frame.len();
    if n < 14 {
        return FrameAction::Discard { reason: DropReason::TooShort };
    }
    let destination: u64 = mac_at(&frame, 0);
    let ether_type: u16 = (frame[12] as u16) * 0x100 + (frame[13] as u16);
    if ether_type == ETHERTYPE_IPV4 {
        if n < 34 {
            return FrameAction::Discard { reason: DropReason::BadIpv4Header };
        }
        let vihl: u8 = frame[14];
        if vihl / 16 != 4 || vihl % 16 < 5 {
            return FrameAction::Discard { reason: DropReason::BadIpv4Header };
        }
        let header_len: usize = (vihl % 16) as usize * 4;
        if n < 14 + header_len {
            return FrameAction::Discard { reason: DropReason::BadIpv4Header };
        }
        let total_len: usize = (frame[16] as usize) * 0x100 + (frame[17] as usize);
        if total_len < header_len {
            return FrameAction::Discard { reason: DropReason::BadIpv4Header };
        }
        assert(ipv4_parse_ok(orig));
        if frame[23] == IP_PROTOCOL_TCP {
            let toff: usize = 14 + header_len;
            if n < toff + 20 {
                return FrameAction::Discard { reason: DropReason::BadTcpHeader };
            }
            if frame[toff + 12] / 16 < 5 {
                return FrameAction::Discard { reason: DropReason::BadTcpHeader };
            }
            let data_len: usize = (frame[toff + 12] / 16) as usize * 4;
            if n < toff + data_len {
                return FrameAction::Discard { reason: DropReason::BadTcpHeader };
            }
            assert(tcp_header_ok(orig));
            let seg_len: usize = n - toff;
            if seg_len > 0xFFFF {
                return FrameAction::Discard { reason: DropReason::OversizedTcpSegment };
            }
            assert(tcp_parse_ok(orig));
            let mut buf: Vec<u8> = Vec::new();
            let mut j: usize = 26;
            while j < 34
                invariant
                    26 <= j <= 34,
                    orig == frame@,
                    n == orig.len() >= 34,
                    buf@.len() == j - 26,
                    forall|i: int| 0 <= i < buf@.len() ==> buf@[i] == checksum_input_byte(orig, i),
                decreases 34 - j,
            {
                buf.push(frame[j]);
                j = j + 1;
            }
            buf.push(0u8);
            buf.push(IP_PROTOCOL_TCP);
            buf.push((seg_len / 0x100) as u8);
            buf.push((seg_len % 0x100) as u8);
            assert(seg_len == tcp_segment_len(orig));
            let mut k: usize = 0;
            while k < seg_len
                invariant
                    0 <= k <= seg_len,
                    orig == frame@,
                    n == orig.len(),
                    tcp_parse_ok(orig),
                    toff == tcp_offset(orig),
                    seg_len == tcp_segment_len(orig),
                    toff + seg_len == n,
                    buf@.len() == 12 + k,
                    forall|i: int| 0 <= i < buf@.len() ==> buf@[i] == checksum_input_byte(orig, i),
                decreases seg_len - k,
            {
                let byte: u8 = if k == 16 || k == 17 {
                    0u8
                } else {
                    frame[toff + k]
                };
                buf.push(byte);
                k = k + 1;
            }
            assert(buf@ =~= checksum_input(orig));
            let ck: u16 = internet_checksum(&buf);
            assert(ck == spec_tcp_checksum(orig));
            frame.set(toff + 16, (ck / 0x100) as u8);
            frame.set(toff + 17, (ck % 0x100) as u8);
            assert(frame@ =~= repaired_frame(orig));
        } else {
            assert(!is_tcp_frame(orig));
            assert(frame@ == repaired_frame(orig));
        }
    } else {
        assert(!is_ipv4_frame(orig));
        assert(frame@ == repaired_frame(orig));
    }
    if mac_is_multicast(destination) {
        FrameAction::Broadcast { frame }
    } else {
        FrameAction::Deliver { destination, frame }
    }
}

/// A frame that is not a well-formed TCP-over-IPv4 frame is forwarded
/// byte for byte unchanged.
pub proof fn lemma_non_tcp_unchanged(f: Seq<u8>)
    requires
        !tcp_parse_ok(f),
    ensures
        repaired_frame(f) == f,
{
}

/// Checksum repair rewrites exactly the two checksum bytes, and they
/// afterwards hold the checksum of the pseudo-header and segment.
pub proof fn lemma_repair_only_checksum(f: Seq<u8>)
    requires
        tcp_parse_ok(f),
    ensures
        repaired_frame(f).len() == f.len(),
        forall|i: int|
            0 <= i < f.len() && i != tcp_checksum_offset(f) && i != tcp_checksum_offset(f) + 1
                ==> repaired_frame(f)[i] == f[i],
        spec_be16(repaired_frame(f), tcp_checksum_offset(f)) == spec_tcp_checksum(f) as int,
{
    let c = spec_tcp_checksum(f) as int;
    assert(c == (c / 0x100) * 0x100 + c % 0x100);
    assert(0 <= c / 0x100 < 0x100);
    assert(0 <= c % 0x100 < 0x100);
}

} // verus!
