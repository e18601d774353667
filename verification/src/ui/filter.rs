//! Filter suggestions offered in the capture-filter menu, chosen by
//! whether the interface looks like a loopback device.

use vstd::prelude::*;
use crate::text::{str_contains, str_starts_with, text_contains, text_starts_with};

verus! {

/// The user asked to quit on purpose; not a failure.
#[derive(Debug, Clone, Copy, PartialEq, Eq, Structural)]
pub struct QuitError;

impl QuitError {
    /// The message shown for a deliberate quit.
    pub fn message(&self) -> (r: String)
        ensures
            r@ == "User requested to quit"@,
    {
        String::from_str("User requested to quit")
    }
}

/// An interface counts as loopback when its name starts with `lo` or
/// `utun`, or mentions `loop`.
pub open spec fn is_loopback_name(s: Seq<char>) -> bool {
    text_starts_with(s, "lo"@) || text_starts_with(s, "utun"@) || text_contains(s, "loop"@)
}

/// The suggestions offered on every interface.
pub open spec fn common_suggestions() -> Seq<(Seq<char>, Seq<char>)> {
    seq![
        ("All traffic (no filter)"@, ""@),
        ("TCP only"@, "tcp"@),
        ("UDP only"@, "udp"@),
        ("ICMP only"@, "icmp"@),
    ]
}

/// The suggestion list: the common ones, then either the non-loopback
/// extras or the loopback-only entry.
pub open spec fn bpf_suggestions(loopback: bool) -> Seq<(Seq<char>, Seq<char>)> {
    if !loopback {
        common_suggestions() + seq![
            ("ARP traffic"@, "arp"@),
            ("Port 80 (HTTP)"@, "port 80"@),
            ("Port 443 (HTTPS)"@, "port 443"@),
            ("DNS traffic"@, "port 53"@),
        ]
    } else {
        common_suggestions() + seq![
            ("Loopback-only traffic (e.g. local apps)"@, "ip and src net 127.0.0.1"@),
        ]
    }
}

/// Builds one suggestion pair.
fn pair(label: &str, expr: &str) -> (r: (String, String))
    ensures
        r.deep_view() == (label@, expr@),
{
    (String::from_str(label), String::from_str(expr))
}

/// The suggested capture filters for the named interface: a description
/// and the filter expression, in a fixed order decided by whether the
/// interface looks like a loopback device.
pub fn get_bpf_filter_suggestions(interface_name: &str) -> (r: Vec<(String, String)>)
    ensures
        r.deep_view() == bpf_suggestions(is_loopback_name(interface_name@)),
{
    let is_loopback = str_starts_with(interface_name, "lo") || str_starts_with(
        interface_name,
        "utun",
    ) || str_contains(interface_name, "loop");
    let mut filters: Vec<(String, String)> = Vec::new();
    filters.push(pair("All traffic (no filter)", ""));
    filters.push(pair("TCP only", "tcp"));
    filters.push(pair("UDP only", "udp"));
    filters.push(pair("ICMP only", "icmp"));
    if !is_loopback {
        filters.push(pair("ARP traffic", "arp"));
        filters.push(pair("Port 80 (HTTP)", "port 80"));
        filters.push(pair("Port 443 (HTTPS)", "port 443"));
        filters.push(pair("DNS traffic", "port 53"));
    } else {
        filters.push(pair("Loopback-only traffic (e.g. local apps)", "ip and src net 127.0.0.1"));
    }
    proof {
        assert(filters.deep_view() =~~= bpf_suggestions(is_loopback_name(interface_name@)));
    }
    filters
}

} // verus!
