//! The TCP header layer: ports and the six control flags.

use vstd::prelude::*;
use crate::bytes::{be16, spec_be16};
use crate::packet::DecodeError;

verus! {

/// The six TCP control flags, each one bit of the control byte.
#[derive(Debug, Clone, Copy, PartialEq, Eq, Structural)]
pub struct TcpFlags {
    pub urg: bool,
    pub ack: bool,
    pub psh: bool,
    pub rst: bool,
    pub syn: bool,
    pub fin: bool,
}

/// The flag set encoded by the low six bits of one control byte
/// (bit 5 = URG, 4 = ACK, 3 = PSH, 2 = RST, 1 = SYN, 0 = FIN).
pub open spec fn flags_of_byte(byte: u8) -> TcpFlags {
    TcpFlags {
        urg: byte & 0x20 != 0,
        ack: byte & 0x10 != 0,
        psh: byte & 0x08 != 0,
        rst: byte & 0x04 != 0,
        syn: byte & 0x02 != 0,
        fin: byte & 0x01 != 0,
    }
}

/// A set flag's label, preceded by `|` unless it is the first.
pub open spec fn with_flag(acc: Seq<char>, label: Seq<char>) -> Seq<char> {
    if acc.len() == 0 {
        label
    } else {
        acc + seq!['|'] + label
    }
}

/// The labels of the set flags, in URG..FIN order, joined by `|`.
pub open spec fn flags_text(f: TcpFlags) -> Seq<char> {
    let a = Seq::<char>::empty();
    let a = if f.urg {
        with_flag(a, "URG"@)
    } else {
        a
    };
    let a = if f.ack {
        with_flag(a, "ACK"@)
    } else {
        a
    };
    let a = if f.psh {
        with_flag(a, "PSH"@)
    } else {
        a
    };
    let a = if f.rst {
        with_flag(a, "RST"@)
    } else {
        a
    };
    let a = if f.syn {
        with_flag(a, "SYN"@)
    } else {
        a
    };
    if f.fin {
        with_flag(a, "FIN"@)
    } else {
        a
    }
}

impl TcpFlags {
    /// Decodes the six flags out of one control byte.
    pub fn from_byte(byte: u8) -> (r: Self)
        ensures
            r == flags_of_byte(byte),
    {
        Self {
            urg: byte & 0b0010_0000 != 0,
            ack: byte & 0b0001_0000 != 0,
            psh: byte & 0b0000_1000 != 0,
            rst: byte & 0b0000_0100 != 0,
            syn: byte & 0b0000_0010 != 0,
            fin: byte & 0b0000_0001 != 0,
        }
    }

    /// Renders the set flags as their labels joined by `|`,
    /// for example `SYN|ACK`; no flag set gives the empty string.
    pub fn flags_string(&self) -> (r: String)
        ensures
            r@ == flags_text(*self),
    {
        proof {
            reveal_strlit("URG");
            reveal_strlit("ACK");
            reveal_strlit("PSH");
            reveal_strlit("RST");
            reveal_strlit("SYN");
            reveal_strlit("FIN");
            reveal_strlit("|");
        }
        let mut s = String::new();
        if self.urg {
            push_label(&mut s, "URG");
        }
        if self.ack {
            push_label(&mut s, "ACK");
        }
        if self.psh {
            push_label(&mut s, "PSH");
        }
        if self.rst {
            push_label(&mut s, "RST");
        }
        if self.syn {
            push_label(&mut s, "SYN");
        }
        if self.fin {
            push_label(&mut s, "FIN");
        }
        proof {
            assert(s@ =~= flags_text(*self));
        }
        s
    }
}

/// Appends `label`, preceded by `|` when `s` is not empty.
fn push_label(s: &mut String, label: &str)
    ensures
        final(s)@ == with_flag(old(s)@, label@),
{
    proof {
        reveal_strlit("|");
        assert("|"@ =~= seq!['|']);
    }
    if !s.as_str().is_empty() {
        s.append("|");
    }
    s.append(label);
    proof {
        assert(final(s)@ =~= with_flag(old(s)@, label@));
    }
}

/// A TCP header can be decoded when at least its fixed 20 bytes are there.
pub open spec fn tcp_header_ok(t: Seq<u8>) -> bool {
    t.len() >= 20
}

/// Decodes the fixed part of a TCP header: the big-endian source and
/// destination ports at offsets 0 and 2 and the flags of the control byte
/// at offset 13. Fails with `TooShort` exactly when fewer than 20 bytes
/// are given.
pub fn parse_tcp_header(header: &[u8]) -> (r: Result<(u16, u16, TcpFlags), DecodeError>)
    ensures
        r is Ok <==> tcp_header_ok(header@),
        r matches Ok(v) ==> v == (
            spec_be16(header@, 0),
            spec_be16(header@, 2),
            flags_of_byte(header@[13]),
        ),
        r is Err ==> r == Err::<(u16, u16, TcpFlags), DecodeError>(DecodeError::TooShort),
{
    if header.len() < 20 {
        return Err(DecodeError::TooShort);
    }
    let src_port = be16(header, 0);
    let dst_port = be16(header, 2);
    let flags = TcpFlags::from_byte(header[13]);
    Ok((src_port, dst_port, flags))
}

} // verus!
