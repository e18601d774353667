use sniffy::packet::{parse_packet, parse_tcp_header, parse_udp, DecodeError, PacketInfo, PacketType, TcpFlags};
use sniffy::packet::ipv4::parse_ipv4;
use sniffy::packet::ipv6::parse_ipv6;
use sniffy::packet::array_from_slice;

fn eth_frame(ethertype: u16, payload: &[u8]) -> Vec<u8> {
    let mut v = vec![
        0x11, 0x22, 0x33, 0x44, 0x55, 0x66, // destination hardware address
        0xaa, 0xbb, 0xcc, 0xdd, 0xee, 0xff, // source hardware address
    ];
    v.push((ethertype >> 8) as u8);
    v.push((ethertype & 0xff) as u8);
    v.extend_from_slice(payload);
    v
}

fn ipv4_header(proto: u8, src: [u8; 4], dst: [u8; 4]) -> Vec<u8> {
    let mut h = vec![0u8; 20];
    h[0] = 0x45;
    h[9] = proto;
    h[12..16].copy_from_slice(&src);
    h[16..20].copy_from_slice(&dst);
    h
}

fn tcp_header(sport: u16, dport: u16, flags: u8) -> Vec<u8> {
    let mut h = vec![0u8; 20];
    h[0] = (sport >> 8) as u8;
    h[1] = (sport & 0xff) as u8;
    h[2] = (dport >> 8) as u8;
    h[3] = (dport & 0xff) as u8;
    h[13] = flags;
    h
}

fn udp_header(sport: u16, dport: u16, len: u16) -> Vec<u8> {
    let mut h = vec![0u8; 8];
    h[0] = (sport >> 8) as u8;
    h[1] = (sport & 0xff) as u8;
    h[2] = (dport >> 8) as u8;
    h[3] = (dport & 0xff) as u8;
    h[4] = (len >> 8) as u8;
    h[5] = (len & 0xff) as u8;
    h
}

fn empty_dns_payload() -> Vec<u8> {
    vec![0u8; 12]
}

#[test]
fn short_buffer_is_ethernet_error() {
    for n in 0..14usize {
        let data = vec![0u8; n];
        assert!(matches!(parse_packet(&data), Err(DecodeError::TooShort)));
    }
}

#[test]
fn fourteen_byte_unknown_ethertype_is_other() {
    let frame = eth_frame(0x9999, &[]);
    assert_eq!(frame.len(), 14);
    let info = parse_packet(&frame).unwrap();
    assert_eq!(info.packet_type, PacketType::Other(0x9999));
    assert_eq!(info.src_mac, Some([0xaa, 0xbb, 0xcc, 0xdd, 0xee, 0xff]));
    assert_eq!(info.dst_mac, Some([0x11, 0x22, 0x33, 0x44, 0x55, 0x66]));
    assert!(info.src_ip.is_none());
    assert!(info.dst_ip.is_none());
    assert!(info.src_port.is_none());
    assert!(info.dst_port.is_none());
    assert!(info.tcp_flags.is_none());
    assert!(info.dns_queries.is_none());
}

#[test]
fn ipv4_tcp_classifies_and_reads_flags() {
    let mut payload = ipv4_header(6, [1, 2, 3, 4], [5, 6, 7, 8]);
    payload.extend_from_slice(&tcp_header(80, 4433, 0x12));
    let frame = eth_frame(0x0800, &payload);
    let info = parse_packet(&frame).unwrap();
    assert_eq!(info.packet_type, PacketType::TCP);
    assert_eq!(info.src_ip.as_deref(), Some("1.2.3.4"));
    assert_eq!(info.dst_ip.as_deref(), Some("5.6.7.8"));
    assert_eq!(info.src_port, Some(80));
    assert_eq!(info.dst_port, Some(4433));
    let flags = info.tcp_flags.unwrap();
    assert!(flags.syn && flags.ack);
    assert!(!flags.urg && !flags.psh && !flags.rst && !flags.fin);
}

#[test]
fn tcp_control_byte_bits_decode_exactly() {
    let flags = TcpFlags::from_byte(0x12);
    assert_eq!(
        flags,
        TcpFlags { urg: false, ack: true, psh: false, rst: false, syn: true, fin: false }
    );
    let all = TcpFlags::from_byte(0x3f);
    assert_eq!(all, TcpFlags { urg: true, ack: true, psh: true, rst: true, syn: true, fin: true });
    let none = TcpFlags::from_byte(0xc0);
    assert_eq!(
        none,
        TcpFlags { urg: false, ack: false, psh: false, rst: false, syn: false, fin: false }
    );
}

#[test]
fn tcp_header_too_short_is_rejected() {
    assert_eq!(parse_tcp_header(&[0u8; 19]), Err(DecodeError::TooShort));
    assert!(parse_tcp_header(&[0u8; 20]).is_ok());
}

#[test]
fn ipv4_header_len_below_20_is_invalid() {
    let mut h = ipv4_header(6, [1, 2, 3, 4], [5, 6, 7, 8]);
    h[0] = 0x44; // stated header length 16
    let mut info = fresh_info();
    assert_eq!(parse_ipv4(&h, &mut info), Err(DecodeError::HeaderLenInvalid));
}

#[test]
fn ipv4_header_len_past_buffer_is_invalid() {
    let mut h = ipv4_header(6, [1, 2, 3, 4], [5, 6, 7, 8]);
    h[0] = 0x4f; // stated header length 60, buffer holds 20
    let mut info = fresh_info();
    assert_eq!(parse_ipv4(&h, &mut info), Err(DecodeError::HeaderLenInvalid));
}

#[test]
fn ipv4_too_short_is_rejected() {
    let mut info = fresh_info();
    assert_eq!(parse_ipv4(&[0u8; 19], &mut info), Err(DecodeError::TooShort));
}

#[test]
fn bad_ipv4_degrades_to_ethernet_category() {
    // Ethernet decodes, the IPv4 header length field is invalid: the frame
    // is still reported, at the Ethernet layer.
    let mut payload = ipv4_header(6, [1, 2, 3, 4], [5, 6, 7, 8]);
    payload[0] = 0x43;
    let frame = eth_frame(0x0800, &payload);
    let info = parse_packet(&frame).unwrap();
    assert_eq!(info.packet_type, PacketType::Ethernet);
    assert!(info.src_ip.is_none());
    assert!(info.src_mac.is_some());
}

#[test]
fn truncated_tcp_degrades_to_ipv4_category() {
    let mut payload = ipv4_header(6, [1, 2, 3, 4], [5, 6, 7, 8]);
    payload.extend_from_slice(&[0u8; 10]); // not a whole TCP header
    let frame = eth_frame(0x0800, &payload);
    let info = parse_packet(&frame).unwrap();
    assert_eq!(info.packet_type, PacketType::IPv4);
    assert_eq!(info.src_ip.as_deref(), Some("1.2.3.4"));
    assert!(info.src_port.is_none());
    assert!(info.tcp_flags.is_none());
}

#[test]
fn ipv4_other_protocol_keeps_ip_fields_only() {
    let payload = ipv4_header(1, [10, 0, 0, 1], [10, 0, 0, 2]);
    let frame = eth_frame(0x0800, &payload);
    let info = parse_packet(&frame).unwrap();
    assert_eq!(info.packet_type, PacketType::IPv4);
    assert_eq!(info.src_ip.as_deref(), Some("10.0.0.1"));
    assert!(info.src_port.is_none());
}

#[test]
fn ipv4_options_shift_transport_layer() {
    // A 24-byte header (IHL 6): the TCP header starts after the options.
    let mut payload = ipv4_header(6, [1, 2, 3, 4], [5, 6, 7, 8]);
    payload[0] = 0x46;
    payload.extend_from_slice(&[0u8; 4]); // options
    payload.extend_from_slice(&tcp_header(1, 2, 0x02));
    let frame = eth_frame(0x0800, &payload);
    let info = parse_packet(&frame).unwrap();
    assert_eq!(info.packet_type, PacketType::TCP);
    assert_eq!(info.src_port, Some(1));
    assert!(info.tcp_flags.unwrap().syn);
}

#[test]
fn udp_port_53_classifies_as_dns_by_destination() {
    let mut udp = udp_header(1234, 53, 8 + 12);
    udp.extend_from_slice(&empty_dns_payload());
    let mut payload = ipv4_header(17, [1, 1, 1, 1], [9, 9, 9, 9]);
    payload.extend_from_slice(&udp);
    let frame = eth_frame(0x0800, &payload);
    let info = parse_packet(&frame).unwrap();
    assert_eq!(info.packet_type, PacketType::DNS);
    assert_eq!(info.src_port, Some(1234));
    assert_eq!(info.dst_port, Some(53));
    // zero questions decode to an empty list: present, not absent
    assert_eq!(info.dns_queries, Some(vec![]));
}

#[test]
fn udp_port_53_classifies_as_dns_by_source() {
    let mut udp = udp_header(53, 40000, 8 + 12);
    udp.extend_from_slice(&empty_dns_payload());
    let mut payload = ipv4_header(17, [1, 1, 1, 1], [9, 9, 9, 9]);
    payload.extend_from_slice(&udp);
    let frame = eth_frame(0x0800, &payload);
    let info = parse_packet(&frame).unwrap();
    assert_eq!(info.packet_type, PacketType::DNS);
}

#[test]
fn udp_other_ports_classify_as_udp() {
    let udp = udp_header(1000, 2000, 8);
    let mut payload = ipv4_header(17, [1, 1, 1, 1], [9, 9, 9, 9]);
    payload.extend_from_slice(&udp);
    let frame = eth_frame(0x0800, &payload);
    let info = parse_packet(&frame).unwrap();
    assert_eq!(info.packet_type, PacketType::UDP);
    assert!(info.dns_queries.is_none());
}

#[test]
fn udp_overlong_stated_length_skips_dns_parse() {
    // The stated datagram length exceeds what is actually there: the UDP
    // layer still decodes and classifies as DNS, but no queries are read.
    let mut udp = udp_header(1234, 53, 200);
    udp.extend_from_slice(&empty_dns_payload());
    let mut payload = ipv4_header(17, [1, 1, 1, 1], [9, 9, 9, 9]);
    payload.extend_from_slice(&udp);
    let frame = eth_frame(0x0800, &payload);
    let info = parse_packet(&frame).unwrap();
    assert_eq!(info.packet_type, PacketType::DNS);
    assert!(info.dns_queries.is_none());
}

#[test]
fn udp_too_short_rejected_directly() {
    let mut info = fresh_info();
    assert_eq!(parse_udp(&[0u8; 7], &mut info), Err(DecodeError::TooShort));
    assert!(parse_udp(&udp_header(1, 2, 8), &mut info).is_ok());
}

#[test]
fn ipv6_tcp_classifies_with_colon_addresses() {
    let mut h = vec![0u8; 40];
    h[6] = 6; // next header: TCP
    h[23] = 1; // source ::1
    h[24] = 0x20;
    h[25] = 0x01;
    h[26] = 0x0d;
    h[27] = 0xb8;
    h[39] = 2; // destination 2001:db8::2
    h.extend_from_slice(&tcp_header(443, 50000, 0x10));
    let frame = eth_frame(0x86DD, &h);
    let info = parse_packet(&frame).unwrap();
    assert_eq!(info.packet_type, PacketType::TCP);
    assert_eq!(info.src_ip.as_deref(), Some("::1"));
    assert_eq!(info.dst_ip.as_deref(), Some("2001:db8::2"));
    assert_eq!(info.src_port, Some(443));
    assert!(info.tcp_flags.unwrap().ack);
}

#[test]
fn ipv6_too_short_rejected_directly() {
    let mut info = fresh_info();
    assert_eq!(parse_ipv6(&[0u8; 39], &mut info), Err(DecodeError::TooShort));
}

#[test]
fn truncated_ipv6_degrades_to_ethernet_category() {
    let frame = eth_frame(0x86DD, &[0u8; 20]);
    let info = parse_packet(&frame).unwrap();
    assert_eq!(info.packet_type, PacketType::Ethernet);
    assert!(info.src_ip.is_none());
}

#[test]
fn array_from_slice_needs_exactly_six_bytes() {
    assert_eq!(array_from_slice(&[1, 2, 3, 4, 5, 6]), Some([1, 2, 3, 4, 5, 6]));
    assert_eq!(array_from_slice(&[1, 2, 3]), None);
    assert_eq!(array_from_slice(&[1, 2, 3, 4, 5, 6, 7]), None);
}

#[test]
fn type_label_names_the_category() {
    assert_eq!(PacketType::TCP.type_label(), "TCP");
    assert_eq!(PacketType::Other(0x9999).type_label(), "Other EtherType 0x9999");
    assert_eq!(PacketType::Other(0x001a).type_label(), "Other EtherType 0x001a");
}

fn fresh_info() -> PacketInfo {
    PacketInfo {
        packet_type: PacketType::Ethernet,
        src_mac: None,
        dst_mac: None,
        src_ip: None,
        dst_ip: None,
        src_port: None,
        dst_port: None,
        tcp_flags: None,
        dns_queries: None,
    }
}
