use common::frame::decapsulate;
use common::packet_extractor::{filter, starts_with, PacketExtractor};

fn ethernet(ethertype: u16, payload: &[u8]) -> Vec<u8> {
    let mut frame = vec![0x01, 0x00, 0x5e, 0x00, 0x00, 0x01, 0x02, 0x42, 0xac, 0x11, 0x00, 0x02];
    frame.push((ethertype >> 8) as u8);
    frame.push((ethertype & 0xff) as u8);
    frame.extend_from_slice(payload);
    frame
}

fn ipv4(words: u8, total_len: u16, protocol: u8, rest: &[u8]) -> Vec<u8> {
    let mut packet = vec![0u8; 20];
    packet[0] = 0x40 | words;
    packet[2] = (total_len >> 8) as u8;
    packet[3] = (total_len & 0xff) as u8;
    packet[8] = 64;
    packet[9] = protocol;
    packet.extend_from_slice(rest);
    packet
}

fn udp(payload: &[u8]) -> Vec<u8> {
    let len = (8 + payload.len()) as u16;
    let mut datagram = vec![0x30, 0x39, 0x30, 0x3a, (len >> 8) as u8, (len & 0xff) as u8, 0, 0];
    datagram.extend_from_slice(payload);
    datagram
}

fn tcp(words: u8, rest: &[u8]) -> Vec<u8> {
    let mut segment = vec![0u8; 20];
    segment[12] = words << 4;
    segment.extend_from_slice(rest);
    segment
}

#[test]
fn udp_payload_comes_out_byte_for_byte() {
    let payload = b"A301K00000042 and the rest of the message\xff\x00";
    let datagram = udp(payload);
    let packet = ipv4(5, (20 + datagram.len()) as u16, 17, &datagram);
    let frame = ethernet(0x0800, &packet);
    assert_eq!(decapsulate(&frame), Some(payload.to_vec()));
}

#[test]
fn tcp_payload_comes_out_byte_for_byte() {
    let payload = b"B606F0000001";
    let segment = tcp(5, payload);
    let packet = ipv4(5, (20 + segment.len()) as u16, 6, &segment);
    let frame = ethernet(0x0800, &packet);
    assert_eq!(decapsulate(&frame), Some(payload.to_vec()));
}

#[test]
fn tcp_options_are_skipped() {
    let mut rest = vec![1u8, 1, 1, 1, 1, 1, 1, 1];
    rest.extend_from_slice(b"G701K");
    let segment = tcp(7, &rest);
    let packet = ipv4(5, (20 + segment.len()) as u16, 6, &segment);
    assert_eq!(decapsulate(&ethernet(0x0800, &packet)), Some(b"G701K".to_vec()));
}

#[test]
fn tcp_data_offset_below_five_counts_as_five() {
    let segment = tcp(2, b"H1abc");
    let packet = ipv4(5, (20 + segment.len()) as u16, 6, &segment);
    assert_eq!(decapsulate(&ethernet(0x0800, &packet)), Some(b"H1abc".to_vec()));
}

#[test]
fn tcp_header_that_reaches_the_end_leaves_an_empty_payload() {
    let segment = tcp(15, b"0123456789");
    let packet = ipv4(5, (20 + segment.len()) as u16, 6, &segment);
    assert_eq!(decapsulate(&ethernet(0x0800, &packet)), Some(Vec::new()));
    let segment = tcp(5, b"");
    let packet = ipv4(5, 40, 6, &segment);
    assert_eq!(decapsulate(&ethernet(0x0800, &packet)), Some(Vec::new()));
}

#[test]
fn ipv4_options_are_skipped() {
    let datagram = udp(b"C4payload");
    let mut rest = vec![7u8, 7, 7, 7];
    rest.extend_from_slice(&datagram);
    let packet = ipv4(6, (24 + datagram.len()) as u16, 17, &rest);
    assert_eq!(decapsulate(&ethernet(0x0800, &packet)), Some(b"C4payload".to_vec()));
}

#[test]
fn ipv4_header_length_below_five_counts_as_five_for_the_start() {
    let datagram = udp(b"H2payload");
    // Header length 3 words: the payload still starts at byte 20, and its
    // length is the total length less 12.
    let packet = ipv4(3, (12 + datagram.len()) as u16, 17, &datagram);
    assert_eq!(decapsulate(&ethernet(0x0800, &packet)), Some(b"H2payload".to_vec()));
    let packet = ipv4(3, (12 + datagram.len() - 4) as u16, 17, &datagram);
    assert_eq!(decapsulate(&ethernet(0x0800, &packet)), Some(b"H2pay".to_vec()));
}

#[test]
fn ipv4_total_length_cuts_the_payload() {
    let datagram = udp(b"A301K trailing padding");
    let packet = ipv4(5, 20 + 8 + 5, 17, &datagram);
    assert_eq!(decapsulate(&ethernet(0x0800, &packet)), Some(b"A301K".to_vec()));
}

#[test]
fn ipv4_total_length_beyond_the_packet_stops_at_its_end() {
    let datagram = udp(b"A301K");
    let packet = ipv4(5, 4000, 17, &datagram);
    assert_eq!(decapsulate(&ethernet(0x0800, &packet)), Some(b"A301K".to_vec()));
}

#[test]
fn ipv4_total_length_within_the_header_leaves_nothing_to_parse() {
    let datagram = udp(b"A301K");
    let packet = ipv4(5, 20, 17, &datagram);
    assert_eq!(decapsulate(&ethernet(0x0800, &packet)), None);
    let packet = ipv4(5, 0, 17, &datagram);
    assert_eq!(decapsulate(&ethernet(0x0800, &packet)), None);
    let packet = ipv4(5, 27, 17, &datagram);
    assert_eq!(decapsulate(&ethernet(0x0800, &packet)), None);
    let packet = ipv4(5, 28, 17, &datagram);
    assert_eq!(decapsulate(&ethernet(0x0800, &packet)), Some(Vec::new()));
}

#[test]
fn ipv4_header_that_reaches_the_end_leaves_nothing_to_parse() {
    let packet = ipv4(15, 100, 17, b"0123456789");
    assert_eq!(decapsulate(&ethernet(0x0800, &packet)), None);
    let packet = ipv4(5, 100, 17, b"");
    assert_eq!(decapsulate(&ethernet(0x0800, &packet)), None);
}

#[test]
fn other_protocols_carry_no_payload() {
    let datagram = udp(b"A301K");
    let packet = ipv4(5, (20 + datagram.len()) as u16, 1, &datagram);
    assert_eq!(decapsulate(&ethernet(0x0800, &packet)), None);
    let packet = ipv4(5, (20 + datagram.len()) as u16, 136, &datagram);
    assert_eq!(decapsulate(&ethernet(0x0800, &packet)), None);
    let packet = ipv4(5, (20 + datagram.len()) as u16, 17, &datagram);
    assert_eq!(decapsulate(&ethernet(0x86dd, &packet)), None);
    assert_eq!(decapsulate(&ethernet(0x0806, &packet)), None);
    assert_eq!(decapsulate(&ethernet(0x0008, &packet)), None);
}

#[test]
fn truncated_frames_carry_no_payload() {
    assert_eq!(decapsulate(b""), None);
    assert_eq!(decapsulate(&[0u8; 13]), None);
    assert_eq!(decapsulate(&ethernet(0x0800, b"")), None);
    assert_eq!(decapsulate(&ethernet(0x0800, &[0x45u8; 19])), None);
    let packet = ipv4(5, 27, 17, &[0u8; 7]);
    assert_eq!(decapsulate(&ethernet(0x0800, &packet)), None);
    let packet = ipv4(5, 39, 6, &[0u8; 19]);
    assert_eq!(decapsulate(&ethernet(0x0800, &packet)), None);
}

#[test]
fn loopback_strips_eighteen_bytes() {
    let mut link = vec![9u8; 18];
    link.extend_from_slice(b"B606F loopback");
    assert_eq!(decapsulate(&ethernet(32785, &link)), Some(b"B606F loopback".to_vec()));
    assert_eq!(decapsulate(&ethernet(32785, &[9u8; 18])), Some(Vec::new()));
    assert_eq!(decapsulate(&ethernet(32785, &[9u8; 17])), None);
    assert_eq!(decapsulate(&ethernet(32785, b"")), None);
}

#[test]
fn starts_with_compares_byte_for_byte() {
    assert!(starts_with(b"B606F", b"B6"));
    assert!(starts_with(b"B6", b"B6"));
    assert!(starts_with(b"B6", b""));
    assert!(starts_with(b"", b""));
    assert!(!starts_with(b"B", b"B6"));
    assert!(!starts_with(b"b606F", b"B6"));
    assert!(!starts_with(b"B706F", b"B6"));
    assert!(!starts_with(b"", b"B6"));
}

#[test]
fn filter_accepts_listed_prefixes_only() {
    let allowed = Some(vec!["B6".to_string(), "G7".to_string()]);
    assert!(!filter(b"A301K and more", &allowed));
    assert!(filter(b"B606F and more", &allowed));
    assert!(filter(b"G7", &allowed));
    assert!(!filter(b"G", &allowed));
    assert!(!filter(b"", &allowed));
}

#[test]
fn filter_without_a_list_accepts_everything() {
    assert!(filter(b"A301K", &None));
    assert!(filter(b"", &None));
}

#[test]
fn filter_with_an_empty_list_accepts_nothing() {
    assert!(!filter(b"A301K", &Some(Vec::new())));
    assert!(!filter(b"", &Some(Vec::new())));
}

#[test]
fn filter_compares_the_bytes_of_the_text() {
    let allowed = Some(vec!["채권".to_string()]);
    assert!(filter("채권A".as_bytes(), &allowed));
    assert!(!filter(&"채권".as_bytes()[..5], &allowed));
    assert!(filter(b"anything", &Some(vec![String::new()])));
}

fn extractor(prefixes: Option<Vec<String>>) -> PacketExtractor {
    PacketExtractor::new("in.pcap".to_string(), "out.pcap".to_string(), prefixes)
}

fn udp_frame(payload: &[u8]) -> Vec<u8> {
    let datagram = udp(payload);
    ethernet(0x0800, &ipv4(5, (20 + datagram.len()) as u16, 17, &datagram))
}

#[test]
fn extractor_keeps_what_it_was_given() {
    let kept = extractor(Some(vec!["B6".to_string()]));
    assert_eq!(kept.file_input(), "in.pcap");
    assert_eq!(kept.file_output(), "out.pcap");
    assert_eq!(kept.header_filter(), &Some(vec!["B6".to_string()]));
}

#[test]
fn valid_packets_carry_a_payload_that_passes() {
    let kept = extractor(Some(vec!["B6".to_string(), "G7".to_string()]));
    assert!(kept.is_valid_packet(&udp_frame(b"B606F...")));
    assert!(!kept.is_valid_packet(&udp_frame(b"A301K...")));
    assert!(!kept.is_valid_packet(b"B606F..."));
    assert!(!kept.is_valid_packet(&ethernet(0x0806, b"B606F...")));
    let all = extractor(None);
    assert!(all.is_valid_packet(&udp_frame(b"A301K...")));
    assert!(all.is_valid_packet(&udp_frame(b"")));
    assert!(!all.is_valid_packet(b"A301K..."));
}

#[test]
fn valid_loopback_packets_are_filtered_behind_the_pseudo_header() {
    let kept = extractor(Some(vec!["B6".to_string()]));
    let mut link = b"B6 in the pseudo-h".to_vec();
    assert_eq!(link.len(), 18);
    link.extend_from_slice(b"A301K");
    assert!(!kept.is_valid_packet(&ethernet(32785, &link)));
    let mut link = vec![0u8; 18];
    link.extend_from_slice(b"B601K");
    assert!(kept.is_valid_packet(&ethernet(32785, &link)));
}

#[test]
fn extract_payload_hands_out_what_passes() {
    let kept = extractor(Some(vec!["A3".to_string()]));
    assert_eq!(kept.extract_payload(&udp_frame(b"A301K...")), Some(b"A301K...".to_vec()));
    assert_eq!(kept.extract_payload(&udp_frame(b"B606F...")), None);
    assert_eq!(kept.extract_payload(b"A301K..."), None);
    assert_eq!(kept.filter_payload(b"A3".to_vec()), Some(b"A3".to_vec()));
    assert_eq!(kept.filter_payload(b"A".to_vec()), None);
    assert_eq!(extractor(None).filter_payload(Vec::new()), Some(Vec::new()));
}
