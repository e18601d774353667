//! The protocol decoder chain: typed decode results and one submodule per
//! header layer. `ethernet::parse_packet` is the entry point of the chain.

pub mod dns;
pub mod ethernet;
pub mod ipv4;
pub mod ipv6;
pub mod tcp;
pub mod udp;

pub use dns::parse_dns_queries;
pub use ethernet::array_from_slice;
pub use ethernet::parse_packet;
pub use tcp::parse_tcp_header;
pub use tcp::TcpFlags;
pub use udp::parse_udp;

use vstd::prelude::*;
use crate::text::hex4;

verus! {

/// The category assigned to one decoded frame: the deepest layer that
/// decoded successfully, with `DNS` taking precedence over `UDP` when
/// either port is 53.
#[derive(Debug, Clone, Copy, PartialEq, Eq, Hash, Structural)]
pub enum PacketType {
    Ethernet,
    IPv4,
    IPv6,
    TCP,
    UDP,
    DNS,
    Other(u16),
}

/// Why a fixed-position header could not be decoded.
#[derive(Debug, Clone, Copy, PartialEq, Eq, Structural)]
pub enum DecodeError {
    /// The buffer ends before the header does.
    TooShort,
    /// The IPv4 header-length field is below 20 or beyond the buffer.
    HeaderLenInvalid,
}

/// One decode result. Fields are populated strictly outward-in: IP fields
/// only after a successful Ethernet parse, transport fields only after a
/// successful IP parse, DNS queries only after a successful UDP parse.
#[derive(Debug, Clone)]
pub struct PacketInfo {
    pub packet_type: PacketType,
    pub src_mac: Option<[u8; 6]>,
    pub dst_mac: Option<[u8; 6]>,
    pub src_ip: Option<String>,
    pub dst_ip: Option<String>,
    pub src_port: Option<u16>,
    pub dst_port: Option<u16>,
    pub tcp_flags: Option<tcp::TcpFlags>,
    pub dns_queries: Option<Vec<String>>,
}

/// The display label of a category.
pub open spec fn type_label_text(c: PacketType) -> Seq<char> {
    match c {
        PacketType::Ethernet => "Ethernet"@,
        PacketType::IPv4 => "IPv4"@,
        PacketType::IPv6 => "IPv6"@,
        PacketType::TCP => "TCP"@,
        PacketType::UDP => "UDP"@,
        PacketType::DNS => "DNS"@,
        PacketType::Other(t) => "Other EtherType 0x"@ + hex4(t),
    }
}

impl PacketType {
    /// Renders the category's display label; an unrecognized EtherType is
    /// written out as four hexadecimal digits.
    pub fn type_label(&self) -> (r: String)
        ensures
            r@ == type_label_text(*self),
    {
        match self {
            PacketType::Ethernet => String::from_str("Ethernet"),
            PacketType::IPv4 => String::from_str("IPv4"),
            PacketType::IPv6 => String::from_str("IPv6"),
            PacketType::TCP => String::from_str("TCP"),
            PacketType::UDP => String::from_str("UDP"),
            PacketType::DNS => String::from_str("DNS"),
            PacketType::Other(t) => {
                let mut s = String::from_str("Other EtherType 0x");
                crate::text::push_hex4(&mut s, *t);
                s
            },
        }
    }
}

} // verus!
