//! Interface classification and per-protocol display attributes for a
//! graphical front end.

use vstd::prelude::*;
use crate::packet::PacketType;
use crate::text::{str_contains, text_contains};

verus! {

/// Whether a capture is running.
#[derive(Debug, PartialEq, Eq, Structural)]
pub enum CaptureState {
    Idle,
    Capturing,
}

/// The kind of interface, guessed from its name.
#[derive(Debug, PartialEq, Eq, Structural)]
pub enum InterfaceKind {
    Loopback,
    Ethernet,
    Unknown,
}

/// The name-based guess: `lo` anywhere means loopback, otherwise `en` or
/// `eth` anywhere means a wired interface.
pub open spec fn interface_kind_spec(name: Seq<char>) -> InterfaceKind {
    if text_contains(name, "lo"@) {
        InterfaceKind::Loopback
    } else if text_contains(name, "en"@) || text_contains(name, "eth"@) {
        InterfaceKind::Ethernet
    } else {
        InterfaceKind::Unknown
    }
}

/// Guesses the interface kind from its name.
pub fn detect_interface_type(name: &str) -> (r: InterfaceKind)
    ensures
        r == interface_kind_spec(name@),
{
    if str_contains(name, "lo") {
        InterfaceKind::Loopback
    } else if str_contains(name, "en") || str_contains(name, "eth") {
        InterfaceKind::Ethernet
    } else {
        InterfaceKind::Unknown
    }
}

/// The filters suggested for each interface kind.
pub open spec fn suggested_filters_spec(k: InterfaceKind) -> Seq<Seq<char>> {
    match k {
        InterfaceKind::Loopback => seq!["tcp"@, "udp"@, "port 53"@, "ip"@, "icmp"@],
        InterfaceKind::Ethernet => seq![
            "tcp"@,
            "udp"@,
            "port 80"@,
            "port 443"@,
            "port 53"@,
            "ip"@,
            "icmp"@,
        ],
        InterfaceKind::Unknown => seq!["ip"@, "tcp"@],
    }
}

/// The common capture filters worth offering on the named interface.
pub fn suggested_filters(interface: &str) -> (r: Vec<String>)
    ensures
        r.deep_view() == suggested_filters_spec(interface_kind_spec(interface@)),
{
    let mut r: Vec<String> = Vec::new();
    match detect_interface_type(interface) {
        InterfaceKind::Loopback => {
            r.push(String::from_str("tcp"));
            r.push(String::from_str("udp"));
            r.push(String::from_str("port 53"));
            r.push(String::from_str("ip"));
            r.push(String::from_str("icmp"));
        },
        InterfaceKind::Ethernet => {
            r.push(String::from_str("tcp"));
            r.push(String::from_str("udp"));
            r.push(String::from_str("port 80"));
            r.push(String::from_str("port 443"));
            r.push(String::from_str("port 53"));
            r.push(String::from_str("ip"));
            r.push(String::from_str("icmp"));
        },
        InterfaceKind::Unknown => {
            r.push(String::from_str("ip"));
            r.push(String::from_str("tcp"));
        },
    }
    proof {
        assert(r.deep_view() =~~= suggested_filters_spec(interface_kind_spec(interface@)));
    }
    r
}

/// How one packet category is presented: a label and (in a graphical
/// front end) a colour chosen by the presentation layer.
#[derive(Debug, Clone, Copy, PartialEq, Eq, Structural)]
pub enum ProtocolDisplay {
    DNS,
    TCP,
    UDP,
    IPv4,
    IPv6,
    Ethernet,
    Other,
}

/// Each category's display entry; all unrecognized EtherTypes share one.
pub open spec fn protocol_display_spec(packet_type: PacketType) -> ProtocolDisplay {
    match packet_type {
        PacketType::DNS => ProtocolDisplay::DNS,
        PacketType::TCP => ProtocolDisplay::TCP,
        PacketType::UDP => ProtocolDisplay::UDP,
        PacketType::IPv4 => ProtocolDisplay::IPv4,
        PacketType::IPv6 => ProtocolDisplay::IPv6,
        PacketType::Ethernet => ProtocolDisplay::Ethernet,
        PacketType::Other(_) => ProtocolDisplay::Other,
    }
}

/// The label text shown for each display entry.
pub open spec fn protocol_label_spec(d: ProtocolDisplay) -> Seq<char> {
    match d {
        ProtocolDisplay::DNS => "DNS:"@,
        ProtocolDisplay::TCP => "TCP:"@,
        ProtocolDisplay::UDP => "UDP:"@,
        ProtocolDisplay::IPv4 => "IPv4:"@,
        ProtocolDisplay::IPv6 => "IPv6:"@,
        ProtocolDisplay::Ethernet => "Ethernet:"@,
        ProtocolDisplay::Other => "Other:"@,
    }
}

impl ProtocolDisplay {
    /// Maps a packet category to its display entry.
    pub fn from_packet_type(packet_type: PacketType) -> (r: Self)
        ensures
            r == protocol_display_spec(packet_type),
    {
        match packet_type {
            PacketType::DNS => ProtocolDisplay::DNS,
            PacketType::TCP => ProtocolDisplay::TCP,
            PacketType::UDP => ProtocolDisplay::UDP,
            PacketType::IPv4 => ProtocolDisplay::IPv4,
            PacketType::IPv6 => ProtocolDisplay::IPv6,
            PacketType::Ethernet => ProtocolDisplay::Ethernet,
            PacketType::Other(_) => ProtocolDisplay::Other,
        }
    }

    /// The label text to show for this entry.
    pub fn label(&self) -> (r: &'static str)
        ensures
            r@ == protocol_label_spec(*self),
    {
        match self {
            ProtocolDisplay::DNS => "DNS:",
            ProtocolDisplay::TCP => "TCP:",
            ProtocolDisplay::UDP => "UDP:",
            ProtocolDisplay::IPv4 => "IPv4:",
            ProtocolDisplay::IPv6 => "IPv6:",
            ProtocolDisplay::Ethernet => "Ethernet:",
            ProtocolDisplay::Other => "Other:",
        }
    }
}

} // verus!
