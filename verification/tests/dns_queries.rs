use sniffy::packet::dns::{parse_dns_name, DnsError};
use sniffy::packet::parse_dns_queries;
use sniffy::packet::{parse_packet, PacketType};

fn dns_payload(qdcount: u16, body: &[u8]) -> Vec<u8> {
    let mut p = vec![0u8; 12];
    p[4] = (qdcount >> 8) as u8;
    p[5] = (qdcount & 0xff) as u8;
    p.extend_from_slice(body);
    p
}

fn name_www_example_com() -> Vec<u8> {
    let mut b = Vec::new();
    b.push(3);
    b.extend_from_slice(b"www");
    b.push(7);
    b.extend_from_slice(b"example");
    b.push(3);
    b.extend_from_slice(b"com");
    b.push(0);
    b
}

#[test]
fn name_compression_round_trip() {
    // First question spells the name out; the second points back at it.
    let mut body = name_www_example_com(); // at offset 12, 17 bytes long
    body.extend_from_slice(&[0, 1, 0, 1]); // first question's type and class
    body.extend_from_slice(&[0xC0, 12]); // pointer to offset 12
    body.extend_from_slice(&[0, 1, 0, 1]);
    let payload = dns_payload(2, &body);
    let queries = parse_dns_queries(&payload).unwrap();
    assert_eq!(queries, vec!["www.example.com".to_string(), "www.example.com".to_string()]);
}

#[test]
fn pointer_after_prefix_labels() {
    // "mail" followed by a pointer to "example.com" inside the first name.
    let mut body = name_www_example_com();
    body.extend_from_slice(&[0, 1, 0, 1]);
    let second = payload_len(&body);
    body.push(4);
    body.extend_from_slice(b"mail");
    body.extend_from_slice(&[0xC0, 16]); // offset of the "example" label
    body.extend_from_slice(&[0, 1, 0, 1]);
    let payload = dns_payload(2, &body);
    let queries = parse_dns_queries(&payload).unwrap();
    assert_eq!(queries[0], "www.example.com");
    assert_eq!(queries[1], "mail.example.com");
    let (name, next) = parse_dns_name(&payload, second, 0).unwrap();
    assert_eq!(name, "mail.example.com");
    assert_eq!(next, second + 7);
}

fn payload_len(body: &[u8]) -> usize {
    12 + body.len()
}

#[test]
fn pointer_out_of_bounds_is_an_error_not_a_panic() {
    let payload = dns_payload(1, &[0xC0, 0xFF]);
    assert_eq!(parse_dns_name(&payload, 12, 0), Err(DnsError::PointerOutOfBounds));
    assert_eq!(parse_dns_queries(&payload), Err(DnsError::PointerOutOfBounds));
}

#[test]
fn pointer_loop_exceeds_depth_bound() {
    // Two pointers aiming at each other can never resolve.
    let payload = dns_payload(1, &[0xC0, 14, 0xC0, 12]);
    assert_eq!(parse_dns_name(&payload, 12, 0), Err(DnsError::TooManyPointers));
}

#[test]
fn failed_name_still_leaves_frame_classified_dns() {
    // The question section is broken, but the UDP layer decoded on port
    // 53: the category stays DNS with the queries absent.
    let dns = dns_payload(1, &[0xC0, 0xFF]);
    let mut udp = vec![
        0x04, 0xd2, // source port 1234
        0x00, 0x35, // destination port 53
        0x00, (8 + dns.len()) as u8, 0x00, 0x00,
    ];
    udp.extend_from_slice(&dns);
    let mut payload = vec![0u8; 20];
    payload[0] = 0x45;
    payload[9] = 17;
    payload.extend_from_slice(&udp);
    let mut frame = vec![0u8; 12];
    frame.extend_from_slice(&[0x08, 0x00]);
    frame.extend_from_slice(&payload);
    let info = parse_packet(&frame).unwrap();
    assert_eq!(info.packet_type, PacketType::DNS);
    assert!(info.dns_queries.is_none());
}

#[test]
fn truncated_pointer_is_an_error() {
    let payload = dns_payload(1, &[0xC0]);
    assert_eq!(parse_dns_name(&payload, 12, 0), Err(DnsError::TruncatedPointer));
}

#[test]
fn offset_past_payload_is_an_error() {
    let payload = dns_payload(0, &[]);
    assert_eq!(parse_dns_name(&payload, 12, 0), Err(DnsError::OffsetOutOfBounds));
    assert_eq!(parse_dns_name(&payload, 100, 0), Err(DnsError::OffsetOutOfBounds));
}

#[test]
fn label_past_payload_is_an_error() {
    let payload = dns_payload(1, &[5, b'a', b'b']);
    assert_eq!(parse_dns_name(&payload, 12, 0), Err(DnsError::LabelOverrun));
}

#[test]
fn label_must_be_text() {
    let payload = dns_payload(1, &[2, 0xFF, 0xFE, 0]);
    assert_eq!(parse_dns_queries(&payload), Err(DnsError::LabelNotText));
}

#[test]
fn multi_byte_text_label_decodes_as_text() {
    // A two-byte UTF-8 label: the decoded name holds the one character,
    // not the two raw bytes.
    let payload = dns_payload(1, &[2, 0xC3, 0xA9, 0, 0, 1, 0, 1]);
    let queries = parse_dns_queries(&payload).unwrap();
    assert_eq!(queries, vec!["\u{e9}".to_string()]);
    assert_eq!(queries[0].chars().count(), 1);
}

#[test]
fn root_name_is_empty() {
    let payload = dns_payload(1, &[0, 0, 1, 0, 1]);
    let queries = parse_dns_queries(&payload).unwrap();
    assert_eq!(queries, vec!["".to_string()]);
    let (name, next) = parse_dns_name(&payload, 12, 0).unwrap();
    assert_eq!(name, "");
    assert_eq!(next, 13);
}

#[test]
fn zero_questions_give_empty_list() {
    let payload = dns_payload(0, &[]);
    assert_eq!(parse_dns_queries(&payload), Ok(vec![]));
}

#[test]
fn payload_shorter_than_header_is_an_error() {
    assert_eq!(parse_dns_queries(&[0u8; 11]), Err(DnsError::TooShort));
}

#[test]
fn questions_past_the_end_are_abandoned_silently() {
    // Two questions declared, but the type and class of the first run
    // past the payload end: the second is abandoned, not an error.
    let mut body = name_www_example_com();
    body.extend_from_slice(&[0, 1, 0]); // truncated type and class
    let payload = dns_payload(2, &body);
    let queries = parse_dns_queries(&payload).unwrap();
    assert_eq!(queries, vec!["www.example.com".to_string()]);
}

#[test]
fn ipv6_udp_dns_queries_decode_end_to_end() {
    let mut body = name_www_example_com();
    body.extend_from_slice(&[0, 1, 0, 1]);
    let dns = dns_payload(1, &body);
    let udp_len = (8 + dns.len()) as u16;
    let mut udp = vec![
        0x00, 0x35, // source port 53
        0x9c, 0x40, // destination port 40000
        (udp_len >> 8) as u8, (udp_len & 0xff) as u8, 0x00, 0x00,
    ];
    udp.extend_from_slice(&dns);
    let mut ip = vec![0u8; 40];
    ip[6] = 17; // next header: UDP
    ip[15] = 1;
    ip[39] = 2;
    ip.extend_from_slice(&udp);
    let mut frame = vec![0u8; 12];
    frame.extend_from_slice(&[0x86, 0xDD]);
    frame.extend_from_slice(&ip);
    let info = parse_packet(&frame).unwrap();
    assert_eq!(info.packet_type, PacketType::DNS);
    assert_eq!(info.src_port, Some(53));
    assert_eq!(info.dns_queries, Some(vec!["www.example.com".to_string()]));
}

#[test]
fn partial_questions_survive_end_to_end() {
    // The second declared question falls past the payload end: the frame
    // still decodes as DNS with the first question recorded.
    let mut body = name_www_example_com();
    body.extend_from_slice(&[0, 1, 0]); // truncated type and class
    let dns = dns_payload(2, &body);
    let udp_len = (8 + dns.len()) as u16;
    let mut udp = vec![
        0x04, 0xd2, // source port 1234
        0x00, 0x35, // destination port 53
        (udp_len >> 8) as u8, (udp_len & 0xff) as u8, 0x00, 0x00,
    ];
    udp.extend_from_slice(&dns);
    let mut ip = vec![0u8; 20];
    ip[0] = 0x45;
    ip[9] = 17;
    ip.extend_from_slice(&udp);
    let mut frame = vec![0u8; 12];
    frame.extend_from_slice(&[0x08, 0x00]);
    frame.extend_from_slice(&ip);
    let info = parse_packet(&frame).unwrap();
    assert_eq!(info.packet_type, PacketType::DNS);
    assert_eq!(info.dns_queries, Some(vec!["www.example.com".to_string()]));
}
