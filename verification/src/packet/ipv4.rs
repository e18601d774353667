//! The IPv4 layer: a variable-length header validated before any slice,
//! then dispatch on the protocol number to TCP or UDP.

use vstd::prelude::*;
use crate::bytes::spec_be16;
use crate::packet::{DecodeError, PacketInfo, PacketType};
use crate::packet::tcp::{flags_of_byte, parse_tcp_header, tcp_header_ok};
use crate::packet::udp::{
    parse_udp, udp_category, udp_dst_port, udp_header_ok, udp_queries_present, udp_src_port,
};
use crate::text::{ipv4_text, push_ipv4};

verus! {

/// The header length stated by the low nibble of byte 0, in bytes.
pub open spec fn ipv4_hlen(p: Seq<u8>) -> int {
    (p[0] & 0x0f) * 4
}

/// An IPv4 header can be decoded when at least 20 bytes are there and the
/// stated header length is at least 20 and within the buffer.
pub open spec fn ipv4_header_ok(p: Seq<u8>) -> bool {
    p.len() >= 20 && 20 <= ipv4_hlen(p) && ipv4_hlen(p) <= p.len()
}

/// The transport protocol number at offset 9.
pub open spec fn ipv4_protocol(p: Seq<u8>) -> u8 {
    p[9]
}

/// The source address (bytes 12-15) in dotted-decimal notation.
pub open spec fn ipv4_src_text(p: Seq<u8>) -> Seq<char> {
    ipv4_text(p.subrange(12, 16))
}

/// The destination address (bytes 16-19) in dotted-decimal notation.
pub open spec fn ipv4_dst_text(p: Seq<u8>) -> Seq<char> {
    ipv4_text(p.subrange(16, 20))
}

/// What follows the stated header length: the transport layer.
pub open spec fn ipv4_transport(p: Seq<u8>) -> Seq<u8> {
    p.subrange(ipv4_hlen(p), p.len() as int)
}

/// The category of a frame whose IPv4 header decoded: the transport layer
/// when it decodes too, plain `IPv4` otherwise.
pub open spec fn ipv4_category(p: Seq<u8>) -> PacketType {
    let t = ipv4_transport(p);
    if ipv4_protocol(p) == 6 {
        if tcp_header_ok(t) {
            PacketType::TCP
        } else {
            PacketType::IPv4
        }
    } else if ipv4_protocol(p) == 17 {
        if udp_header_ok(t) {
            udp_category(t)
        } else {
            PacketType::IPv4
        }
    } else {
        PacketType::IPv4
    }
}

/// Decodes the IPv4 layer of `payload` into `info` and dispatches on the
/// protocol number: 6 continues with TCP, 17 with UDP, anything else
/// leaves the category at `IPv4`; a transport layer that is itself too
/// short also leaves the category at `IPv4`, with no transport fields
/// set. Fails, leaving `info` untouched, with `TooShort` exactly when
/// fewer than 20 bytes are given, and with `HeaderLenInvalid` exactly
/// when the stated header length is below 20 or past the buffer end.
pub fn parse_ipv4(payload: &[u8], info: &mut PacketInfo) -> (r: Result<(), DecodeError>)
    ensures
        r is Ok <==> ipv4_header_ok(payload@),
        r is Err ==> *final(info) == *old(info),
        r == Err::<(), DecodeError>(DecodeError::TooShort) <==> payload@.len() < 20,
        r == Err::<(), DecodeError>(DecodeError::HeaderLenInvalid) <==> (payload@.len() >= 20 && !(
        20 <= ipv4_hlen(payload@) && ipv4_hlen(payload@) <= payload@.len())),
        r is Ok ==> ({
            let p = payload@;
            let t = ipv4_transport(p);
            &&& (final(info).src_ip matches Some(s) && s@ == ipv4_src_text(p))
            &&& (final(info).dst_ip matches Some(s) && s@ == ipv4_dst_text(p))
            &&& final(info).packet_type == ipv4_category(p)
            &&& final(info).src_mac == old(info).src_mac
            &&& final(info).dst_mac == old(info).dst_mac
            &&& (if ipv4_protocol(p) == 6 && tcp_header_ok(t) {
                &&& final(info).src_port == Some(spec_be16(t, 0))
                &&& final(info).dst_port == Some(spec_be16(t, 2))
                &&& final(info).tcp_flags == Some(flags_of_byte(t[13]))
                &&& final(info).dns_queries == old(info).dns_queries
            } else if ipv4_protocol(p) == 17 && udp_header_ok(t) {
                &&& final(info).src_port == Some(udp_src_port(t))
                &&& final(info).dst_port == Some(udp_dst_port(t))
                &&& final(info).tcp_flags == old(info).tcp_flags
                &&& (udp_queries_present(t) ==> (final(info).dns_queries matches Some(q)
                    && q.deep_view() == crate::packet::dns::dns_queries_spec(
                    crate::packet::udp::udp_dns_payload(t),
                ).unwrap()))
                &&& (!udp_queries_present(t) ==> final(info).dns_queries == old(info).dns_queries)
            } else {
                &&& final(info).src_port == old(info).src_port
                &&& final(info).dst_port == old(info).dst_port
                &&& final(info).tcp_flags == old(info).tcp_flags
                &&& final(info).dns_queries == old(info).dns_queries
            })
        }),
{
    if payload.len() < 20 {
        return Err(DecodeError::TooShort);
    }
    let ihl = payload[0] & 0x0f;
    let header_len = (ihl as usize) * 4;
    if header_len < 20 || header_len > payload.len() {
        return Err(DecodeError::HeaderLenInvalid);
    }
    let mut src = String::new();
    push_ipv4(&mut src, payload, 12);
    let mut dst = String::new();
    push_ipv4(&mut dst, payload, 16);
    proof {
        assert(src@ =~= ipv4_src_text(payload@));
        assert(dst@ =~= ipv4_dst_text(payload@));
    }
    info.src_ip = Some(src);
    info.dst_ip = Some(dst);
    let protocol = payload[9];
    let ghost t = ipv4_transport(payload@);
    match protocol {
        6u8 => {
            if payload.len() - header_len >= 20 {
                let header = &payload[header_len..header_len + 20];
                proof {
                    assert(header@ =~= t.subrange(0, 20));
                    assert(spec_be16(header@, 0) == spec_be16(t, 0));
                    assert(spec_be16(header@, 2) == spec_be16(t, 2));
                    assert(header@[13] == t[13]);
                }
                if let Ok((src_port, dst_port, flags)) = parse_tcp_header(header) {
                    info.packet_type = PacketType::TCP;
                    info.src_port = Some(src_port);
                    info.dst_port = Some(dst_port);
                    info.tcp_flags = Some(flags);
                }
            } else {
                info.packet_type = PacketType::IPv4;
            }
        },
        17u8 => {
            let transport = &payload[header_len..payload.len()];
            proof {
                assert(transport@ =~= t);
            }
            if parse_udp(transport, info).is_err() {
                info.packet_type = PacketType::IPv4;
            }
        },
        _ => {
            info.packet_type = PacketType::IPv4;
        },
    }
    Ok(())
}

} // verus!
