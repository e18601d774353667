//! Guarantees of the decoder chain that span several layers, stated and
//! proved once over the decode model.

use vstd::prelude::*;
use crate::packet::{PacketInfo, PacketType};
use crate::packet::dns::{dns_name_spec, DnsError};
use crate::packet::ethernet::{
    category_spec, decode_spec, eth_ok, eth_payload, ethertype_spec, ip_present_spec,
    transport_proto_spec, transport_spec,
};
use crate::packet::ipv4::{ipv4_header_ok, ipv4_protocol, ipv4_transport};
use crate::packet::tcp::{flags_of_byte, tcp_header_ok};
use crate::packet::udp::{udp_header_ok, udp_is_dns};

verus! {

/// Every frame carrying IPv4 (EtherType 0x0800, valid header length)
/// whose protocol is TCP with a decodable TCP header decodes to category
/// `TCP`, and its flags are exactly the bits of the control byte at
/// offset 13 of the TCP header.
pub proof fn lemma_tcp_classification(d: Seq<u8>, info: PacketInfo)
    requires
        eth_ok(d),
        ethertype_spec(d) == 0x0800,
        ipv4_header_ok(eth_payload(d)),
        ipv4_protocol(eth_payload(d)) == 6,
        tcp_header_ok(ipv4_transport(eth_payload(d))),
        decode_spec(d, info),
    ensures
        info.packet_type == PacketType::TCP,
        info.tcp_flags == Some(flags_of_byte(ipv4_transport(eth_payload(d))[13])),
{
}

/// Every frame whose UDP layer decoded with destination port 53 decodes
/// to category `DNS`, whatever its source port.
pub proof fn lemma_dns_classification(d: Seq<u8>, info: PacketInfo)
    requires
        eth_ok(d),
        ip_present_spec(d),
        transport_proto_spec(d) == 17,
        udp_header_ok(transport_spec(d)),
        crate::packet::udp::udp_dst_port(transport_spec(d)) == 53,
        decode_spec(d, info),
    ensures
        info.packet_type == PacketType::DNS,
{
}

/// The category of a frame whose UDP layer decoded on port 53 is `DNS`
/// no matter what the DNS question section holds: nothing here is asked
/// of the queries, so a failed or partial question parse (a
/// pointer out of bounds, too deep a pointer chain) only leaves
/// `dns_queries` absent or partial and never changes the category.
pub proof fn lemma_dns_category_independent_of_queries(d: Seq<u8>, info: PacketInfo)
    requires
        eth_ok(d),
        ip_present_spec(d),
        transport_proto_spec(d) == 17,
        udp_header_ok(transport_spec(d)),
        udp_is_dns(transport_spec(d)),
        decode_spec(d, info),
    ensures
        info.packet_type == PacketType::DNS,
{
}

/// A name beginning with a compression pointer whose 14-bit target lies
/// at or past the payload end fails to decode with `PointerOutOfBounds`.
pub proof fn lemma_dns_pointer_out_of_bounds(p: Seq<u8>, pos: int, depth: int)
    requires
        0 <= pos,
        pos + 1 < p.len(),
        p[pos] & 0xC0 == 0xC0,
        (p[pos] & 0x3f) as int * 256 + p[pos + 1] as int >= p.len(),
        0 <= depth <= 10,
    ensures
        dns_name_spec(p, pos, depth) == Err::<(Seq<char>, int), DnsError>(
            DnsError::PointerOutOfBounds,
        ),
{
    let b = p[pos];
    assert(b != 0) by (bit_vector)
        requires
            b & 0xC0 == 0xC0,
    ;
}

/// Following more than ten compression pointers fails the name with
/// `TooManyPointers`.
pub proof fn lemma_dns_depth_exceeded(p: Seq<u8>, pos: int, depth: int)
    requires
        depth > 10,
    ensures
        dns_name_spec(p, pos, depth) == Err::<(Seq<char>, int), DnsError>(DnsError::TooManyPointers),
{
}

/// An unrecognized EtherType decodes to `Other` carrying that EtherType,
/// with no deeper layer ever recorded.
pub proof fn lemma_other_classification(d: Seq<u8>, info: PacketInfo)
    requires
        eth_ok(d),
        ethertype_spec(d) != 0x0800,
        ethertype_spec(d) != 0x86DD,
        decode_spec(d, info),
    ensures
        info.packet_type == PacketType::Other(ethertype_spec(d)),
        info.src_ip is None,
        info.dst_ip is None,
        info.src_port is None,
        info.dst_port is None,
        info.tcp_flags is None,
        info.dns_queries is None,
{
    assert(category_spec(d) == PacketType::Other(ethertype_spec(d)));
}

} // verus!
