//! The UDP layer: ports, the stated datagram length, and the hand-off to
//! the DNS question parser when either port is 53.

use vstd::prelude::*;
use crate::bytes::{be16, spec_be16};
use crate::packet::{DecodeError, PacketInfo, PacketType};
use crate::packet::dns::{dns_queries_spec, parse_dns_queries};

verus! {

/// A UDP header can be decoded when at least its fixed 8 bytes are there.
pub open spec fn udp_header_ok(u: Seq<u8>) -> bool {
    u.len() >= 8
}

/// The big-endian source port at offset 0.
pub open spec fn udp_src_port(u: Seq<u8>) -> u16 {
    spec_be16(u, 0)
}

/// The big-endian destination port at offset 2.
pub open spec fn udp_dst_port(u: Seq<u8>) -> u16 {
    spec_be16(u, 2)
}

/// The stated datagram length (header included) at offset 4.
pub open spec fn udp_len_field(u: Seq<u8>) -> u16 {
    spec_be16(u, 4)
}

/// A datagram takes part in DNS when either port is 53.
pub open spec fn udp_is_dns(u: Seq<u8>) -> bool {
    udp_src_port(u) == 53 || udp_dst_port(u) == 53
}

/// The stated length is usable when it covers the header and does not
/// exceed the bytes actually present.
pub open spec fn udp_payload_ok(u: Seq<u8>) -> bool {
    8 <= udp_len_field(u) <= u.len()
}

/// The datagram payload as delimited by the stated length.
pub open spec fn udp_dns_payload(u: Seq<u8>) -> Seq<u8> {
    u.subrange(8, udp_len_field(u) as int)
}

/// `DNS` when either port is 53, plain `UDP` otherwise.
pub open spec fn udp_category(u: Seq<u8>) -> PacketType {
    if udp_is_dns(u) {
        PacketType::DNS
    } else {
        PacketType::UDP
    }
}

/// Queries are recorded exactly when the datagram is DNS, its stated
/// length is usable, and the question section decodes.
pub open spec fn udp_queries_present(u: Seq<u8>) -> bool {
    udp_is_dns(u) && udp_payload_ok(u) && dns_queries_spec(udp_dns_payload(u)) is Ok
}

/// Decodes the UDP layer of `data` into `info`: the category becomes
/// `DNS` when either port is 53 (`UDP` otherwise), the ports are
/// recorded, and the DNS question section is decoded only when the
/// stated datagram length is usable; a bad stated length or a failed
/// question parse leaves the queries absent but the layer decoded.
/// Fails with `TooShort`, leaving `info` untouched, exactly when fewer
/// than 8 bytes are given.
pub fn parse_udp(data: &[u8], info: &mut PacketInfo) -> (r: Result<(), DecodeError>)
    ensures
        r is Ok <==> udp_header_ok(data@),
        r is Err ==> r == Err::<(), DecodeError>(DecodeError::TooShort) && *final(info) == *old(
            info,
        ),
        r is Ok ==> ({
            let u = data@;
            &&& final(info).packet_type == udp_category(u)
            &&& final(info).src_port == Some(udp_src_port(u))
            &&& final(info).dst_port == Some(udp_dst_port(u))
            &&& (udp_queries_present(u) ==> (final(info).dns_queries matches Some(q)
                && q.deep_view() == dns_queries_spec(udp_dns_payload(u)).unwrap()))
            &&& (!udp_queries_present(u) ==> final(info).dns_queries == old(info).dns_queries)
            &&& final(info).src_mac == old(info).src_mac
            &&& final(info).dst_mac == old(info).dst_mac
            &&& final(info).src_ip == old(info).src_ip
            &&& final(info).dst_ip == old(info).dst_ip
            &&& final(info).tcp_flags == old(info).tcp_flags
        }),
{
    if data.len() < 8 {
        return Err(DecodeError::TooShort);
    }
    let src_port = be16(data, 0);
    let dst_port = be16(data, 2);
    let udp_len = be16(data, 4);
    let is_dns = src_port == 53 || dst_port == 53;
    info.packet_type = if is_dns {
        PacketType::DNS
    } else {
        PacketType::UDP
    };
    info.src_port = Some(src_port);
    info.dst_port = Some(dst_port);
    if is_dns && udp_len >= 8 && (udp_len as usize) <= data.len() {
        let payload = &data[8..udp_len as usize];
        proof {
            assert(payload@ =~= udp_dns_payload(data@));
        }
        if let Ok(queries) = parse_dns_queries(payload) {
            info.dns_queries = Some(queries);
        }
    }
    Ok(())
}

} // verus!
