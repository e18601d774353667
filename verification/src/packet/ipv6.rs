//! The IPv6 layer: the fixed 40-byte header, with the next-header field
//! read directly as the transport protocol (extension headers are not
//! walked; a frame carrying one has its transport layer misread, a known
//! limitation kept as it stands).

use vstd::prelude::*;
use crate::bytes::spec_be16;
use crate::packet::{DecodeError, PacketInfo, PacketType};
use crate::packet::tcp::{flags_of_byte, parse_tcp_header, tcp_header_ok};
use crate::packet::udp::{
    parse_udp, udp_category, udp_dst_port, udp_header_ok, udp_queries_present, udp_src_port,
};
use crate::text::{ipv6_text, ipv6_to_string};

verus! {

/// An IPv6 header can be decoded when its fixed 40 bytes are there.
pub open spec fn ipv6_header_ok(p: Seq<u8>) -> bool {
    p.len() >= 40
}

/// The next-header field at offset 6, taken as the transport protocol.
pub open spec fn ipv6_next_header(p: Seq<u8>) -> u8 {
    p[6]
}

/// The source address (bytes 8-23) in canonical colon notation.
pub open spec fn ipv6_src_text(p: Seq<u8>) -> Seq<char> {
    ipv6_text(p.subrange(8, 24))
}

/// The destination address (bytes 24-39) in canonical colon notation.
pub open spec fn ipv6_dst_text(p: Seq<u8>) -> Seq<char> {
    ipv6_text(p.subrange(24, 40))
}

/// What follows the fixed header: the transport layer.
pub open spec fn ipv6_transport(p: Seq<u8>) -> Seq<u8> {
    p.subrange(40, p.len() as int)
}

/// The category of a frame whose IPv6 header decoded: the transport layer
/// when it decodes too, plain `IPv6` otherwise.
pub open spec fn ipv6_category(p: Seq<u8>) -> PacketType {
    let t = ipv6_transport(p);
    if ipv6_next_header(p) == 6 {
        if tcp_header_ok(t) {
            PacketType::TCP
        } else {
            PacketType::IPv6
        }
    } else if ipv6_next_header(p) == 17 {
        if udp_header_ok(t) {
            udp_category(t)
        } else {
            PacketType::IPv6
        }
    } else {
        PacketType::IPv6
    }
}

/// Decodes the IPv6 layer of `payload` into `info` and dispatches on the
/// next-header field: 6 continues with TCP, 17 with UDP, anything else
/// leaves the category at `IPv6`; a transport layer that is itself too
/// short also leaves the category at `IPv6`, with no transport fields
/// set. Fails with `TooShort`, leaving `info` untouched, exactly when
/// fewer than 40 bytes are given.
pub fn parse_ipv6(payload: &[u8], info: &mut PacketInfo) -> (r: Result<(), DecodeError>)
    ensures
        r is Ok <==> ipv6_header_ok(payload@),
        r is Err ==> r == Err::<(), DecodeError>(DecodeError::TooShort) && *final(info) == *old(
            info,
        ),
        r is Ok ==> ({
            let p = payload@;
            let t = ipv6_transport(p);
            &&& (final(info).src_ip matches Some(s) && s@ == ipv6_src_text(p))
            &&& (final(info).dst_ip matches Some(s) && s@ == ipv6_dst_text(p))
            &&& final(info).packet_type == ipv6_category(p)
            &&& final(info).src_mac == old(info).src_mac
            &&& final(info).dst_mac == old(info).dst_mac
            &&& (if ipv6_next_header(p) == 6 && tcp_header_ok(t) {
                &&& final(info).src_port == Some(spec_be16(t, 0))
                &&& final(info).dst_port == Some(spec_be16(t, 2))
                &&& final(info).tcp_flags == Some(flags_of_byte(t[13]))
                &&& final(info).dns_queries == old(info).dns_queries
            } else if ipv6_next_header(p) == 17 && udp_header_ok(t) {
                &&& final(info).src_port == Some(udp_src_port(t))
                &&& final(info).dst_port == Some(udp_dst_port(t))
                &&& final(info).tcp_flags == old(info).tcp_flags
                &&& (udp_queries_present(t) ==> (final(info).dns_queries matches Some(q)
                    && q.deep_view() == crate::packet::dns::dns_queries_spec(
                    crate::packet::udp::udp_dns_payload(t),
                ).unwrap()))
                &&& (!udp_queries_present(t) ==> final(info).dns_queries == old(info).dns_queries)
            } else {
                &&& final(info).src_port == old(info).src_port
                &&& final(info).dst_port == old(info).dst_port
                &&& final(info).tcp_flags == old(info).tcp_flags
                &&& final(info).dns_queries == old(info).dns_queries
            })
        }),
{
    if payload.len() < 40 {
        return Err(DecodeError::TooShort);
    }
    let src = ipv6_to_string(payload, 8);
    let dst = ipv6_to_string(payload, 24);
    info.src_ip = Some(src);
    info.dst_ip = Some(dst);
    let next_header = payload[6];
    let ghost t = ipv6_transport(payload@);
    match next_header {
        6u8 => {
            if payload.len() - 40 >= 20 {
                let header = &payload[40..60];
                proof {
                    assert(header@ =~= t.subrange(0, 20));
                    assert(spec_be16(header@, 0) == spec_be16(t, 0));
                    assert(spec_be16(header@, 2) == spec_be16(t, 2));
                    assert(header@[13] == t[13]);
                }
                if let Ok((src_port, dst_port, flags)) = parse_tcp_header(header) {
                    info.packet_type = PacketType::TCP;
                    info.src_port = Some(src_port);
                    info.dst_port = Some(dst_port);
                    info.tcp_flags = Some(flags);
                }
            } else {
                info.packet_type = PacketType::IPv6;
            }
        },
        17u8 => {
            let transport = &payload[40..payload.len()];
            proof {
                assert(transport@ =~= t);
            }
            if parse_udp(transport, info).is_err() {
                info.packet_type = PacketType::IPv6;
            }
        },
        _ => {
            info.packet_type = PacketType::IPv6;
        },
    }
    Ok(())
}

} // verus!
