//! The Ethernet layer and the top of the decoder chain: `parse_packet`
//! dispatches on the EtherType and degrades the category to the deepest
//! layer that decoded, rather than failing, for everything but a frame
//! too short for the Ethernet header itself.

use vstd::prelude::*;
use crate::bytes::{be16, spec_be16};
use crate::packet::{DecodeError, PacketInfo, PacketType};
use crate::packet::dns::dns_queries_spec;
use crate::packet::ipv4::{
    ipv4_category, ipv4_dst_text, ipv4_header_ok, ipv4_protocol, ipv4_src_text, ipv4_transport,
    parse_ipv4,
};
use crate::packet::ipv6::{
    ipv6_category, ipv6_dst_text, ipv6_header_ok, ipv6_next_header, ipv6_src_text, ipv6_transport,
    parse_ipv6,
};
use crate::packet::tcp::{flags_of_byte, tcp_header_ok};
use crate::packet::udp::{
    udp_dns_payload, udp_dst_port, udp_header_ok, udp_queries_present, udp_src_port,
};

verus! {

/// An Ethernet header can be decoded when at least 14 bytes are there.
pub open spec fn eth_ok(d: Seq<u8>) -> bool {
    d.len() >= 14
}

/// The big-endian EtherType at offset 12.
pub open spec fn ethertype_spec(d: Seq<u8>) -> u16 {
    spec_be16(d, 12)
}

/// What follows the Ethernet header: the IP layer.
pub open spec fn eth_payload(d: Seq<u8>) -> Seq<u8> {
    d.subrange(14, d.len() as int)
}

/// The category of a decodable frame: `Other` for an unrecognized
/// EtherType, otherwise the deepest layer that decoded.
pub open spec fn category_spec(d: Seq<u8>) -> PacketType {
    let et = ethertype_spec(d);
    let p = eth_payload(d);
    if et == 0x0800 {
        if ipv4_header_ok(p) {
            ipv4_category(p)
        } else {
            PacketType::Ethernet
        }
    } else if et == 0x86DD {
        if ipv6_header_ok(p) {
            ipv6_category(p)
        } else {
            PacketType::Ethernet
        }
    } else {
        PacketType::Other(et)
    }
}

/// IP addresses are recorded exactly when the IP layer decoded.
pub open spec fn ip_present_spec(d: Seq<u8>) -> bool {
    let et = ethertype_spec(d);
    let p = eth_payload(d);
    ||| et == 0x0800 && ipv4_header_ok(p)
    ||| et == 0x86DD && ipv6_header_ok(p)
}

/// The source address text of a frame whose IP layer decoded.
pub open spec fn src_ip_text_spec(d: Seq<u8>) -> Seq<char> {
    if ethertype_spec(d) == 0x0800 {
        ipv4_src_text(eth_payload(d))
    } else {
        ipv6_src_text(eth_payload(d))
    }
}

/// The destination address text of a frame whose IP layer decoded.
pub open spec fn dst_ip_text_spec(d: Seq<u8>) -> Seq<char> {
    if ethertype_spec(d) == 0x0800 {
        ipv4_dst_text(eth_payload(d))
    } else {
        ipv6_dst_text(eth_payload(d))
    }
}

/// The transport slice of a frame whose IP layer decoded.
pub open spec fn transport_spec(d: Seq<u8>) -> Seq<u8> {
    if ethertype_spec(d) == 0x0800 {
        ipv4_transport(eth_payload(d))
    } else {
        ipv6_transport(eth_payload(d))
    }
}

/// The transport protocol number of a frame whose IP layer decoded.
pub open spec fn transport_proto_spec(d: Seq<u8>) -> u8 {
    if ethertype_spec(d) == 0x0800 {
        ipv4_protocol(eth_payload(d))
    } else {
        ipv6_next_header(eth_payload(d))
    }
}

/// The ports of the frame: present exactly when a TCP or UDP header
/// decoded on top of a decoded IP layer.
pub open spec fn ports_spec(d: Seq<u8>) -> Option<(u16, u16)> {
    if ip_present_spec(d) {
        let t = transport_spec(d);
        if transport_proto_spec(d) == 6 && tcp_header_ok(t) {
            Some((spec_be16(t, 0), spec_be16(t, 2)))
        } else if transport_proto_spec(d) == 17 && udp_header_ok(t) {
            Some((udp_src_port(t), udp_dst_port(t)))
        } else {
            None
        }
    } else {
        None
    }
}

/// The TCP flags of the frame: present exactly when a TCP header decoded.
pub open spec fn tcp_flags_spec(d: Seq<u8>) -> Option<crate::packet::tcp::TcpFlags> {
    if ip_present_spec(d) && transport_proto_spec(d) == 6 && tcp_header_ok(transport_spec(d)) {
        Some(flags_of_byte(transport_spec(d)[13]))
    } else {
        None
    }
}

/// DNS queries are recorded exactly when a UDP header decoded, either
/// port is 53, the stated datagram length is usable, and the question
/// section decoded.
pub open spec fn dns_queries_present_spec(d: Seq<u8>) -> bool {
    ip_present_spec(d) && transport_proto_spec(d) == 17 && udp_header_ok(transport_spec(d))
        && udp_queries_present(transport_spec(d))
}

/// The recorded question names of a frame whose question section decoded.
pub open spec fn dns_queries_value_spec(d: Seq<u8>) -> Seq<Seq<char>> {
    dns_queries_spec(udp_dns_payload(transport_spec(d))).unwrap()
}

/// What a successful decode of the frame `d` guarantees of the returned
/// record: the category is the deepest decoded layer, and every field is
/// present exactly when its layer decoded, holding that layer's value.
pub open spec fn decode_spec(d: Seq<u8>, info: PacketInfo) -> bool {
    &&& info.packet_type == category_spec(d)
    &&& (info.src_mac matches Some(m) && m@ == d.subrange(6, 12))
    &&& (info.dst_mac matches Some(m) && m@ == d.subrange(0, 6))
    &&& (info.src_ip is Some <==> ip_present_spec(d))
    &&& (info.src_ip matches Some(s) ==> s@ == src_ip_text_spec(d))
    &&& (info.dst_ip is Some <==> ip_present_spec(d))
    &&& (info.dst_ip matches Some(s) ==> s@ == dst_ip_text_spec(d))
    &&& (match ports_spec(d) {
        Some(pr) => info.src_port == Some(pr.0) && info.dst_port == Some(pr.1),
        None => info.src_port is None && info.dst_port is None,
    })
    &&& info.tcp_flags == tcp_flags_spec(d)
    &&& (info.dns_queries is Some <==> dns_queries_present_spec(d))
    &&& (info.dns_queries matches Some(q) ==> q.deep_view() == dns_queries_value_spec(d))
}

/// Copies a six-byte slice into a hardware-address array; any other
/// length gives nothing.
pub fn array_from_slice(slice: &[u8]) -> (r: Option<[u8; 6]>)
    ensures
        r is Some <==> slice@.len() == 6,
        r matches Some(a) ==> a@ == slice@,
{
    if slice.len() == 6 {
        let arr: [u8; 6] = [slice[0], slice[1], slice[2], slice[3], slice[4], slice[5]];
        proof {
            assert(arr@ =~= slice@);
        }
        Some(arr)
    } else {
        None
    }
}

/// Decodes one raw frame. Fails with `TooShort` exactly when the frame is
/// shorter than the 14-byte Ethernet header; from there on decoding is
/// best-effort: EtherType 0x0800 continues with IPv4, 0x86DD with IPv6,
/// anything else is categorized `Other`, and a layer that fails to decode
/// leaves the category at the deepest layer that did, with the fields of
/// deeper layers absent.
pub fn parse_packet(data: &[u8]) -> (r: Result<PacketInfo, DecodeError>)
    ensures
        r is Err <==> data@.len() < 14,
        r is Err ==> r == Err::<PacketInfo, DecodeError>(DecodeError::TooShort),
        r matches Ok(info) ==> decode_spec(data@, info),
{
    if data.len() < 14 {
        return Err(DecodeError::TooShort);
    }
    let ethertype = be16(data, 12);
    let src_mac = array_from_slice(&data[6..12]);
    let dst_mac = array_from_slice(&data[0..6]);
    let mut info = PacketInfo {
        packet_type: PacketType::Ethernet,
        src_mac,
        dst_mac,
        src_ip: None,
        dst_ip: None,
        src_port: None,
        dst_port: None,
        tcp_flags: None,
        dns_queries: None,
    };
    let payload = &data[14..data.len()];
    proof {
        assert(payload@ =~= eth_payload(data@));
    }
    if ethertype == 0x0800 {
        let _ = parse_ipv4(payload, &mut info);
    } else if ethertype == 0x86DD {
        let _ = parse_ipv6(payload, &mut info);
    } else {
        info.packet_type = PacketType::Other(ethertype);
    }
    Ok(info)
}

} // verus!
