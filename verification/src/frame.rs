//! From a captured frame to the application payload it carries.
//!
//! Two encapsulations are read: Ethernet, IPv4 and then UDP or TCP; and the
//! loopback pseudo-protocol, whose link payload opens with a pseudo-header of
//! fixed length. Any other frame carries no payload.
//!
//! The headers are parsed by `pnet`. What is stated here of its packet types
//! is believed, not proved; `decapsulate` is proved from it.

use pnet::packet::ethernet::EthernetPacket;
use pnet::packet::ipv4::Ipv4Packet;
use pnet::packet::tcp::TcpPacket;
use pnet::packet::udp::UdpPacket;
use pnet::packet::Packet;
use vstd::prelude::*;
use vstd::slice::{slice_subrange, slice_to_vec};

verus! {

/// The EtherType of IPv4.
pub const ETHERTYPE_IPV4: u16 = 0x0800;

/// The EtherType under which loopback traffic is captured.
pub const ETHERTYPE_LOOPBACK: u16 = 32785;

/// The length of the pseudo-header that opens a loopback link payload.
pub const LOOPBACK_HEADER_LEN: usize = 18;

/// The IPv4 protocol number of TCP.
pub const IP_PROTOCOL_TCP: u8 = 6;

/// The IPv4 protocol number of UDP.
pub const IP_PROTOCOL_UDP: u8 = 17;

pub const ETHERNET_HEADER_LEN: usize = 14;

pub const IPV4_HEADER_LEN: usize = 20;

pub const UDP_HEADER_LEN: usize = 8;

pub const TCP_HEADER_LEN: usize = 20;

/// What the link layer says of a frame.
pub struct LinkFrame {
    pub ethertype: u16,
    pub payload: Vec<u8>,
}

/// What the network layer says of a packet.
pub struct Datagram {
    pub protocol: u8,
    pub payload: Vec<u8>,
}

/// The number that two bytes spell, the high byte first.
pub open spec fn be16(high: u8, low: u8) -> int {
    high * 256 + low
}

/// `bytes` from `start` on; empty where `start` is at or behind the end.
pub open spec fn tail(bytes: Seq<u8>, start: int) -> Seq<u8> {
    if 0 <= start < bytes.len() {
        bytes.skip(start)
    } else {
        Seq::empty()
    }
}

/// The EtherType and the payload of an Ethernet frame; `None` where the
/// frame is shorter than an Ethernet header.
pub open spec fn ethernet_frame(frame: Seq<u8>) -> Option<(int, Seq<u8>)> {
    if frame.len() < ETHERNET_HEADER_LEN {
        None
    } else {
        Some((be16(frame[12], frame[13]), tail(frame, ETHERNET_HEADER_LEN as int)))
    }
}

/// Where the payload of an IPv4 packet starts: behind the header, whose
/// length in 32-bit words is the low half of the first byte, and never
/// before the end of the fixed part of the header.
pub open spec fn ipv4_payload_start(packet: Seq<u8>) -> int {
    let header_len = (packet[0] % 16) * 4;
    if header_len > IPV4_HEADER_LEN {
        header_len
    } else {
        IPV4_HEADER_LEN as int
    }
}

/// Where the payload of an IPv4 packet ends: where the total length in the
/// header says, and at the end of the packet at the latest.
pub open spec fn ipv4_payload_end(packet: Seq<u8>) -> int {
    let header_len = (packet[0] % 16) * 4;
    let total_len = be16(packet[2], packet[3]);
    let payload_len = if total_len > header_len {
        total_len - header_len
    } else {
        0
    };
    let end = ipv4_payload_start(packet) + payload_len;
    if end < packet.len() {
        end
    } else {
        packet.len() as int
    }
}

/// The protocol number and the payload of an IPv4 packet; `None` where the
/// packet is shorter than the fixed part of an IPv4 header.
pub open spec fn ipv4_datagram(packet: Seq<u8>) -> Option<(int, Seq<u8>)> {
    if packet.len() < IPV4_HEADER_LEN {
        None
    } else if packet.len() <= ipv4_payload_start(packet) {
        Some((packet[9] as int, Seq::empty()))
    } else {
        Some(
            (
                packet[9] as int,
                packet.subrange(ipv4_payload_start(packet), ipv4_payload_end(packet)),
            ),
        )
    }
}

/// The payload of a UDP datagram: all that follows the header. `None`
/// where the datagram is shorter than a UDP header.
pub open spec fn udp_payload(datagram: Seq<u8>) -> Option<Seq<u8>> {
    if datagram.len() < UDP_HEADER_LEN {
        None
    } else {
        Some(tail(datagram, UDP_HEADER_LEN as int))
    }
}

/// Where the payload of a TCP segment starts: behind the header, whose
/// length in 32-bit words is the high half of byte 12, and never before the
/// end of the fixed part of the header.
pub open spec fn tcp_payload_start(segment: Seq<u8>) -> int {
    let data_offset = segment[12] / 16;
    if data_offset > 5 {
        data_offset * 4
    } else {
        TCP_HEADER_LEN as int
    }
}

/// The payload of a TCP segment; `None` where the segment is shorter than
/// the fixed part of a TCP header.
pub open spec fn tcp_payload(segment: Seq<u8>) -> Option<Seq<u8>> {
    if segment.len() < TCP_HEADER_LEN {
        None
    } else {
        Some(tail(segment, tcp_payload_start(segment)))
    }
}

/// The payload that an IPv4 packet carries over UDP or TCP.
pub open spec fn transport_payload(packet: Seq<u8>) -> Option<Seq<u8>> {
    match ipv4_datagram(packet) {
        Some((protocol, payload)) => if protocol == IP_PROTOCOL_UDP {
            udp_payload(payload)
        } else if protocol == IP_PROTOCOL_TCP {
            tcp_payload(payload)
        } else {
            None
        },
        None => None,
    }
}

/// The application payload that a captured frame carries, where it carries
/// one.
pub open spec fn application_payload(frame: Seq<u8>) -> Option<Seq<u8>> {
    match ethernet_frame(frame) {
        Some((ethertype, payload)) => if ethertype == ETHERTYPE_IPV4 {
            transport_payload(payload)
        } else if ethertype == ETHERTYPE_LOOPBACK && payload.len() >= LOOPBACK_HEADER_LEN {
            Some(payload.skip(LOOPBACK_HEADER_LEN as int))
        } else {
            None
        },
        None => None,
    }
}

/// `EthernetPacket::new`, `get_ethertype` and `payload`: a frame of at
/// least fourteen bytes is an Ethernet frame. Its EtherType is bytes 12
/// and 13, the high byte first, and its payload is all that follows them.
#[verifier::external_body]
fn parse_ethernet(frame: &[u8]) -> (res: Option<LinkFrame>)
    ensures
        (match res {
            Some(link) => Some((link.ethertype as int, link.payload@)),
            None => None,
        }) == ethernet_frame(frame@),
{
    let packet = EthernetPacket::new(frame)?;
    Some(LinkFrame { ethertype: packet.get_ethertype().0, payload: packet.payload().to_vec() })
}

/// `Ipv4Packet::new`, `get_next_level_protocol` and `payload`: bytes of at
/// least twenty are an IPv4 packet. Its protocol number is byte 9. Its
/// payload starts behind the header and its options, and ends where the
/// total length says or the packet ends.
#[verifier::external_body]
fn parse_ipv4(packet: &[u8]) -> (res: Option<Datagram>)
    ensures
        (match res {
            Some(datagram) => Some((datagram.protocol as int, datagram.payload@)),
            None => None,
        }) == ipv4_datagram(packet@),
{
    let packet = Ipv4Packet::new(packet)?;
    Some(
        Datagram {
            protocol: packet.get_next_level_protocol().0,
            payload: packet.payload().to_vec(),
        },
    )
}

/// `UdpPacket::new` and `payload`: bytes of at least eight are a UDP
/// datagram, and its payload is all that follows the first eight.
#[verifier::external_body]
fn parse_udp(datagram: &[u8]) -> (res: Option<Vec<u8>>)
    ensures
        (match res {
            Some(payload) => Some(payload@),
            None => None,
        }) == udp_payload(datagram@),
{
    let packet = UdpPacket::new(datagram)?;
    Some(packet.payload().to_vec())
}

/// `TcpPacket::new` and `payload`: bytes of at least twenty are a TCP
/// segment, and its payload is all that follows the header and its options.
#[verifier::external_body]
fn parse_tcp(segment: &[u8]) -> (res: Option<Vec<u8>>)
    ensures
        (match res {
            Some(payload) => Some(payload@),
            None => None,
        }) == tcp_payload(segment@),
{
    let packet = TcpPacket::new(segment)?;
    Some(packet.payload().to_vec())
}

/// The application payload that `frame` carries: what follows the
/// Ethernet, IPv4 and UDP or TCP headers, or what follows the pseudo-header
/// of a loopback frame. `None` for any other frame, and for one that is cut
/// short within its headers.
pub fn decapsulate(frame: &[u8]) -> (res: Option<Vec<u8>>)
    ensures
        (match res {
            Some(payload) => Some(payload@),
            None => None,
        }) == application_payload(frame@),
{
    let link = match parse_ethernet(frame) {
        Some(link) => link,
        None => {
            return None;
        },
    };
    if link.ethertype == ETHERTYPE_IPV4 {
        let datagram = match parse_ipv4(link.payload.as_slice()) {
            Some(datagram) => datagram,
            None => {
                return None;
            },
        };
        if datagram.protocol == IP_PROTOCOL_UDP {
            parse_udp(datagram.payload.as_slice())
        } else if datagram.protocol == IP_PROTOCOL_TCP {
            parse_tcp(datagram.payload.as_slice())
        } else {
            None
        }
    } else if link.ethertype == ETHERTYPE_LOOPBACK && link.payload.len() >= LOOPBACK_HEADER_LEN {
        let payload = link.payload.as_slice();
        Some(slice_to_vec(slice_subrange(payload, LOOPBACK_HEADER_LEN, payload.len())))
    } else {
        None
    }
}

/// `header` is an Ethernet header that announces `ethertype`.
pub open spec fn is_ethernet_header(header: Seq<u8>, ethertype: int) -> bool {
    header.len() == ETHERNET_HEADER_LEN && be16(header[12], header[13]) == ethertype
}

/// `header` is an IPv4 header without options that announces `protocol`
/// and a payload of `payload_len` bytes.
pub open spec fn is_ipv4_header(header: Seq<u8>, protocol: int, payload_len: int) -> bool {
    &&& header.len() == IPV4_HEADER_LEN
    &&& header[0] % 16 == 5
    &&& be16(header[2], header[3]) == IPV4_HEADER_LEN + payload_len
    &&& header[9] == protocol
}

/// `header` is a TCP header without options.
pub open spec fn is_tcp_header(header: Seq<u8>) -> bool {
    header.len() == TCP_HEADER_LEN && header[12] / 16 == 5
}

/// `part` stands in `whole` from `start` on.
pub open spec fn stands_at(part: Seq<u8>, whole: Seq<u8>, start: int) -> bool {
    0 <= start && start + part.len() <= whole.len() && part == whole.subrange(
        start,
        start + part.len(),
    )
}

/// What is sent over UDP comes out as it went in: a payload behind an
/// Ethernet header, an IPv4 header without options and a UDP header is the
/// application payload of the frame, byte for byte.
pub proof fn lemma_udp_frame(ethernet: Seq<u8>, ipv4: Seq<u8>, udp: Seq<u8>, payload: Seq<u8>)
    requires
        is_ethernet_header(ethernet, ETHERTYPE_IPV4 as int),
        is_ipv4_header(ipv4, IP_PROTOCOL_UDP as int, UDP_HEADER_LEN + payload.len()),
        udp.len() == UDP_HEADER_LEN,
    ensures
        application_payload(ethernet + ipv4 + udp + payload) == Some(payload),
{
    let frame = ethernet + ipv4 + udp + payload;
    let packet = ipv4 + udp + payload;
    let datagram = udp + payload;
    assert(tail(frame, ETHERNET_HEADER_LEN as int) =~= packet);
    assert(packet.subrange(ipv4_payload_start(packet), ipv4_payload_end(packet)) =~= datagram);
    assert(tail(datagram, UDP_HEADER_LEN as int) =~= payload);
}

/// What is sent over TCP comes out as it went in: a payload behind an
/// Ethernet header, an IPv4 header and a TCP header, both without options,
/// is the application payload of the frame, byte for byte.
pub proof fn lemma_tcp_frame(ethernet: Seq<u8>, ipv4: Seq<u8>, tcp: Seq<u8>, payload: Seq<u8>)
    requires
        is_ethernet_header(ethernet, ETHERTYPE_IPV4 as int),
        is_ipv4_header(ipv4, IP_PROTOCOL_TCP as int, TCP_HEADER_LEN + payload.len()),
        is_tcp_header(tcp),
    ensures
        application_payload(ethernet + ipv4 + tcp + payload) == Some(payload),
{
    let frame = ethernet + ipv4 + tcp + payload;
    let packet = ipv4 + tcp + payload;
    let segment = tcp + payload;
    assert(tail(frame, ETHERNET_HEADER_LEN as int) =~= packet);
    assert(packet.subrange(ipv4_payload_start(packet), ipv4_payload_end(packet)) =~= segment);
    assert(tail(segment, tcp_payload_start(segment)) =~= payload);
}

/// A loopback frame carries all that follows its pseudo-header.
pub proof fn lemma_loopback_frame(ethernet: Seq<u8>, pseudo_header: Seq<u8>, payload: Seq<u8>)
    requires
        is_ethernet_header(ethernet, ETHERTYPE_LOOPBACK as int),
        pseudo_header.len() == LOOPBACK_HEADER_LEN,
    ensures
        application_payload(ethernet + pseudo_header + payload) == Some(payload),
{
    let frame = ethernet + pseudo_header + payload;
    let link = pseudo_header + payload;
    assert(tail(frame, ETHERNET_HEADER_LEN as int) =~= link);
    assert(link.skip(LOOPBACK_HEADER_LEN as int) =~= payload);
}

/// An application payload is a run of bytes of its frame, behind the
/// Ethernet header: nothing is added and nothing is changed.
pub proof fn lemma_payload_stands_in_frame(frame: Seq<u8>)
    ensures
        application_payload(frame) matches Some(payload) ==> exists|start: int|
            start >= ETHERNET_HEADER_LEN && #[trigger] stands_at(payload, frame, start),
{
    if let Some(payload) = application_payload(frame) {
        let (ethertype, link) = ethernet_frame(frame).unwrap();
        if ethertype == ETHERTYPE_IPV4 {
            let (protocol, inner) = ipv4_datagram(link).unwrap();
            let inner_start = if link.len() <= ipv4_payload_start(link) {
                link.len() as int
            } else {
                ipv4_payload_start(link)
            };
            assert(inner =~= link.subrange(inner_start, inner_start + inner.len()));
            assert(stands_at(inner, link, inner_start));
            let header = if protocol == IP_PROTOCOL_UDP {
                UDP_HEADER_LEN as int
            } else {
                tcp_payload_start(inner)
            };
            let payload_start = if header < inner.len() {
                header
            } else {
                inner.len() as int
            };
            assert(payload =~= inner.subrange(payload_start, payload_start + payload.len()));
            assert(stands_at(payload, inner, payload_start));
            let start = ETHERNET_HEADER_LEN + inner_start + payload_start;
            assert(payload =~= frame.subrange(start, start + payload.len()));
            assert(stands_at(payload, frame, start));
        } else {
            let start = ETHERNET_HEADER_LEN + LOOPBACK_HEADER_LEN;
            assert(payload =~= frame.subrange(start, start + payload.len()));
            assert(stands_at(payload, frame, start));
        }
    }
}

} // verus!
