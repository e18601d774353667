//! The live packet log: one formatted line per decoded frame, bounded to
//! the most recent lines, owned by whoever renders it and passed by
//! reference rather than held in process-wide state.

use vstd::prelude::*;
use crate::packet::{PacketInfo, type_label_text};
use crate::packet::tcp::flags_text;
use crate::text::{dec_digits, join_sep, mac_text, mac_to_str, push_dec};

verus! {

/// How many log lines are kept.
pub const MAX_LINES: usize = 30;

/// The hardware-address part of a log line; both addresses or nothing.
pub open spec fn macs_text(info: PacketInfo) -> Seq<char> {
    match (info.src_mac, info.dst_mac) {
        (Some(s), Some(d)) => "MAC "@ + mac_text(s@) + " -> "@ + mac_text(d@),
        _ => "MAC [n/a]"@,
    }
}

/// The IP-address part of a log line; both addresses or nothing.
pub open spec fn ips_text(info: PacketInfo) -> Seq<char> {
    match (info.src_ip, info.dst_ip) {
        (Some(s), Some(d)) => s@ + " -> "@ + d@,
        _ => "[no IP]"@,
    }
}

/// The port part of a log line; empty without a transport layer.
pub open spec fn ports_text(info: PacketInfo) -> Seq<char> {
    match (info.src_port, info.dst_port) {
        (Some(s), Some(d)) => "ports "@ + dec_digits(s as int) + " -> "@ + dec_digits(d as int),
        _ => Seq::empty(),
    }
}

/// One log line: category, addresses and ports, with the TCP flags and
/// the DNS question names appended when present.
pub open spec fn packet_line_text(info: PacketInfo) -> Seq<char> {
    type_label_text(info.packet_type) + " | "@ + macs_text(info) + " | "@ + ips_text(info) + " | "@
        + ports_text(info) + (match info.tcp_flags {
        Some(f) => " | TCP Flags: ["@ + flags_text(f) + "]"@,
        None => Seq::empty(),
    }) + (match info.dns_queries {
        Some(q) => " | DNS: "@ + join_sep(q.deep_view(), ", "@),
        None => Seq::empty(),
    })
}

/// Appends the elements of `parts` from `from` on, joined by `, `.
fn push_joined(s: &mut String, parts: &Vec<String>, from: usize)
    requires
        from <= parts@.len(),
    ensures
        final(s)@ == old(s)@ + join_sep(
            parts.deep_view().subrange(from as int, parts.deep_view().len() as int),
            ", "@,
        ),
    decreases parts@.len() - from,
{
    let ghost dv = parts.deep_view();
    let ghost sub = dv.subrange(from as int, dv.len() as int);
    if from < parts.len() {
        s.append(parts[from].as_str());
        if from + 1 < parts.len() {
            s.append(", ");
            push_joined(s, parts, from + 1);
            proof {
                assert(sub.drop_first() =~= dv.subrange(from as int + 1, dv.len() as int));
            }
        }
    } else {
        proof {
            assert(sub =~= Seq::<Seq<char>>::empty());
        }
    }
    proof {
        assert(final(s)@ =~= old(s)@ + join_sep(sub, ", "@));
    }
}

/// Renders the hardware-address part of a log line.
fn macs_string(info: &PacketInfo) -> (r: String)
    ensures
        r@ == macs_text(*info),
{
    let mut s = String::new();
    match (&info.src_mac, &info.dst_mac) {
        (Some(sm), Some(dm)) => {
            s.append("MAC ");
            let m = mac_to_str(sm);
            s.append(m.as_str());
            s.append(" -> ");
            let m2 = mac_to_str(dm);
            s.append(m2.as_str());
        },
        _ => {
            s.append("MAC [n/a]");
        },
    }
    proof {
        assert(s@ =~= macs_text(*info));
    }
    s
}

/// Renders the IP-address part of a log line.
fn ips_string(info: &PacketInfo) -> (r: String)
    ensures
        r@ == ips_text(*info),
{
    let mut s = String::new();
    match (&info.src_ip, &info.dst_ip) {
        (Some(si), Some(di)) => {
            s.append(si.as_str());
            s.append(" -> ");
            s.append(di.as_str());
        },
        _ => {
            s.append("[no IP]");
        },
    }
    proof {
        assert(s@ =~= ips_text(*info));
    }
    s
}

/// Renders the port part of a log line.
fn ports_string(info: &PacketInfo) -> (r: String)
    ensures
        r@ == ports_text(*info),
{
    let mut s = String::new();
    match (info.src_port, info.dst_port) {
        (Some(sp), Some(dp)) => {
            s.append("ports ");
            push_dec(&mut s, sp as u64);
            s.append(" -> ");
            push_dec(&mut s, dp as u64);
        },
        _ => {},
    }
    proof {
        assert(s@ =~= ports_text(*info));
    }
    s
}

/// Appends the TCP-flag section, when flags are present.
fn append_flags_part(s: &mut String, info: &PacketInfo)
    ensures
        final(s)@ == old(s)@ + (match info.tcp_flags {
            Some(f) => " | TCP Flags: ["@ + flags_text(f) + "]"@,
            None => Seq::<char>::empty(),
        }),
{
    if let Some(f) = &info.tcp_flags {
        s.append(" | TCP Flags: [");
        let fs = f.flags_string();
        s.append(fs.as_str());
        s.append("]");
    }
    proof {
        assert(final(s)@ =~= old(s)@ + (match info.tcp_flags {
            Some(f) => " | TCP Flags: ["@ + flags_text(f) + "]"@,
            None => Seq::<char>::empty(),
        }));
    }
}

/// Appends the DNS section, when question names are present.
fn append_dns_part(s: &mut String, info: &PacketInfo)
    ensures
        final(s)@ == old(s)@ + (match info.dns_queries {
            Some(q) => " | DNS: "@ + join_sep(q.deep_view(), ", "@),
            None => Seq::<char>::empty(),
        }),
{
    if let Some(q) = &info.dns_queries {
        s.append(" | DNS: ");
        push_joined(s, q, 0);
        proof {
            assert(q.deep_view().subrange(0, q.deep_view().len() as int) =~= q.deep_view());
        }
    }
    proof {
        assert(final(s)@ =~= old(s)@ + (match info.dns_queries {
            Some(q) => " | DNS: "@ + join_sep(q.deep_view(), ", "@),
            None => Seq::<char>::empty(),
        }));
    }
}

/// Renders one log line for a decoded frame.
pub fn format_packet_line(info: &PacketInfo) -> (r: String)
    ensures
        r@ == packet_line_text(*info),
{
    let mut s = info.packet_type.type_label();
    s.append(" | ");
    let macs = macs_string(info);
    s.append(macs.as_str());
    s.append(" | ");
    let ips = ips_string(info);
    s.append(ips.as_str());
    s.append(" | ");
    let ports = ports_string(info);
    s.append(ports.as_str());
    append_flags_part(&mut s, info);
    append_dns_part(&mut s, info);
    proof {
        assert(s@ =~= packet_line_text(*info));
    }
    s
}

/// The bounded log of recent packet lines.
pub struct PacketLog {
    lines: Vec<String>,
}

impl PacketLog {
    /// The kept lines, oldest first.
    pub closed spec fn view(&self) -> Seq<Seq<char>> {
        self.lines.deep_view()
    }

    /// Never more than `MAX_LINES` lines.
    pub closed spec fn wf(&self) -> bool {
        self.lines@.len() <= 30
    }

    /// An empty log.
    pub fn new() -> (r: Self)
        ensures
            r.wf(),
            r.view() == Seq::<Seq<char>>::empty(),
    {
        let r = PacketLog { lines: Vec::new() };
        proof {
            assert(r.view() =~= Seq::<Seq<char>>::empty());
        }
        r
    }

    /// The kept lines, for rendering.
    pub fn lines(&self) -> (r: &Vec<String>)
        ensures
            r.deep_view() == self.view(),
    {
        &self.lines
    }
}

/// Appends the formatted line for `info` to the log, dropping the oldest
/// line when the log is full.
pub fn display_packet_info(log: &mut PacketLog, info: &PacketInfo)
    requires
        old(log).wf(),
    ensures
        final(log).wf(),
        final(log).view() == ({
            let l = old(log).view().push(packet_line_text(*info));
            if l.len() > MAX_LINES {
                l.subrange(1, l.len() as int)
            } else {
                l
            }
        }),
{
    let line = format_packet_line(info);
    let ghost pushed = old(log).view().push(packet_line_text(*info));
    log.lines.push(line);
    proof {
        assert(log.lines.deep_view() =~~= pushed);
    }
    if log.lines.len() > MAX_LINES {
        log.lines.remove(0);
        proof {
            assert(log.lines.deep_view() =~~= pushed.subrange(1, pushed.len() as int));
        }
    }
}

} // verus!
