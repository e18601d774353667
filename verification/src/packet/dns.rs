//! The DNS question section: question names at arbitrary offsets inside a
//! message payload, with compression pointers resolved under a recursion
//! bound, and the question list iterated up to the declared count.

use vstd::prelude::*;
use vstd::utf8::{decode_utf8, valid_utf8};
use crate::bytes::{be16, spec_be16};
use crate::text::join_sep;

verus! {

/// Why a question name or the question section could not be decoded.
#[derive(Debug, Clone, Copy, PartialEq, Eq, Structural)]
pub enum DnsError {
    /// The payload ends before the fixed 12-byte message header does.
    TooShort,
    /// A name starts at or runs to an offset at or past the payload end.
    OffsetOutOfBounds,
    /// More than 10 compression pointers were followed for one name.
    TooManyPointers,
    /// A compression pointer's second byte is past the payload end.
    TruncatedPointer,
    /// A compression pointer's target is at or past the payload end.
    PointerOutOfBounds,
    /// A label runs past the payload end.
    LabelOverrun,
    /// A label's bytes are not valid UTF-8 text.
    LabelNotText,
}

/// The label list of the name at `pos`, and the offset just past the name
/// as consumed at `pos`: a terminating zero octet ends the list; an octet
/// with both high bits set, together with the next octet, points at an
/// earlier occurrence, whose whole resolved name becomes one element and
/// whose consumption does not move this name's cursor past the two pointer
/// bytes; any other octet is a label length. At most 10 pointers may be
/// followed (`depth` counts those already taken), and every position read
/// must lie inside the payload.
pub open spec fn dns_label_list(p: Seq<u8>, pos: int, depth: int) -> Result<
    (Seq<Seq<char>>, int),
    DnsError,
>
    decreases 11 - depth, p.len() - pos,
{
    if depth > 10 {
        Err(DnsError::TooManyPointers)
    } else if pos < 0 || pos >= p.len() {
        Err(DnsError::OffsetOutOfBounds)
    } else {
        let len = p[pos];
        if len == 0 {
            Ok((Seq::empty(), pos + 1))
        } else if len & 0xC0 == 0xC0 {
            if pos + 1 >= p.len() {
                Err(DnsError::TruncatedPointer)
            } else {
                let target = (len & 0x3f) as int * 256 + p[pos + 1] as int;
                if target >= p.len() {
                    Err(DnsError::PointerOutOfBounds)
                } else {
                    match dns_label_list(p, target, depth + 1) {
                        Err(e) => Err(e),
                        Ok((ls, _)) => Ok((seq![join_sep(ls, seq!['.'])], pos + 2)),
                    }
                }
            }
        } else {
            if pos + 1 + len > p.len() {
                Err(DnsError::LabelOverrun)
            } else {
                let bytes = p.subrange(pos + 1, pos + 1 + len);
                if !valid_utf8(bytes) {
                    Err(DnsError::LabelNotText)
                } else {
                    match dns_label_list(p, pos + 1 + len, depth) {
                        Err(e) => Err(e),
                        Ok((ls, next)) => Ok((seq![decode_utf8(bytes)].add(ls), next)),
                    }
                }
            }
        }
    }
}

/// The name at `pos` as text (labels joined by `.`) and the offset just
/// past it; the root name is the empty text.
pub open spec fn dns_name_spec(p: Seq<u8>, pos: int, depth: int) -> Result<
    (Seq<char>, int),
    DnsError,
> {
    match dns_label_list(p, pos, depth) {
        Err(e) => Err(e),
        Ok((ls, next)) => Ok((join_sep(ls, seq!['.']), next)),
    }
}

/// Up to `remaining` question names starting at `pos`, each followed by
/// the fixed four bytes of type and class; when skipping those four bytes
/// passes the payload end, the questions read so far stand and the rest
/// are abandoned. A name that fails to decode fails the whole section.
pub open spec fn dns_queries_from(p: Seq<u8>, pos: int, remaining: int) -> Result<
    Seq<Seq<char>>,
    DnsError,
>
    decreases remaining,
{
    if remaining <= 0 {
        Ok(Seq::empty())
    } else {
        match dns_name_spec(p, pos, 0) {
            Err(e) => Err(e),
            Ok((name, next)) => {
                if next + 4 > p.len() {
                    Ok(seq![name])
                } else {
                    match dns_queries_from(p, next + 4, remaining - 1) {
                        Err(e) => Err(e),
                        Ok(rest) => Ok(seq![name].add(rest)),
                    }
                }
            },
        }
    }
}

/// The question names of the DNS message `p`: the 16-bit question count
/// stands at offset 4, and the first question at offset 12.
pub open spec fn dns_queries_spec(p: Seq<u8>) -> Result<Seq<Seq<char>>, DnsError> {
    if p.len() < 12 {
        Err(DnsError::TooShort)
    } else {
        dns_queries_from(p, 12, spec_be16(p, 4) as int)
    }
}

/// Relies on std's `str::from_utf8`, which is documented to return `Ok`
/// exactly when the byte slice is valid UTF-8, and then to yield those
/// bytes read as text; stated over vstd's model of UTF-8.
#[verifier::external_body]
fn utf8_label(bytes: &[u8]) -> (r: Option<String>)
    ensures
        r is Some <==> valid_utf8(bytes@),
        r matches Some(s) ==> s@ == decode_utf8(bytes@),
{
    match core::str::from_utf8(bytes) {
        Ok(s) => Some(s.to_owned()),
        Err(_) => None,
    }
}

/// Decodes the name at `pos` to its text, a flag saying whether the label
/// list is non-empty, and the offset just past the name.
fn dns_name_worker(payload: &[u8], pos: usize, depth: usize) -> (r: Result<
    (String, bool, usize),
    DnsError,
>)
    ensures
        match dns_label_list(payload@, pos as int, depth as int) {
            Ok((ls, next)) => r matches Ok(v) && v.0@ == join_sep(ls, seq!['.']) && v.1 == (ls.len()
                != 0) && v.2 == next && next <= payload@.len(),
            Err(e) => r == Err::<(String, bool, usize), DnsError>(e),
        },
    decreases 11 - depth, payload@.len() - pos,
{
    if depth > 10 {
        return Err(DnsError::TooManyPointers);
    }
    if pos >= payload.len() {
        return Err(DnsError::OffsetOutOfBounds);
    }
    let len = payload[pos];
    if len == 0 {
        return Ok((String::new(), false, pos + 1));
    }
    if len & 0xC0 == 0xC0 {
        if pos + 1 >= payload.len() {
            return Err(DnsError::TruncatedPointer);
        }
        let target = (len & 0x3f) as usize * 256 + payload[pos + 1] as usize;
        if target >= payload.len() {
            return Err(DnsError::PointerOutOfBounds);
        }
        match dns_name_worker(payload, target, depth + 1) {
            Err(e) => Err(e),
            Ok((name, _, _)) => {
                proof {
                    let ls = dns_label_list(payload@, target as int, depth as int + 1).unwrap().0;
                    assert(join_sep(seq![join_sep(ls, seq!['.'])], seq!['.']) == join_sep(
                        ls,
                        seq!['.'],
                    ));
                }
                Ok((name, true, pos + 2))
            },
        }
    } else {
        if len as usize > payload.len() - (pos + 1) {
            return Err(DnsError::LabelOverrun);
        }
        let bytes = &payload[pos + 1..pos + 1 + len as usize];
        match utf8_label(bytes) {
            None => Err(DnsError::LabelNotText),
            Some(label) => {
                match dns_name_worker(payload, pos + 1 + len as usize, depth) {
                    Err(e) => Err(e),
                    Ok((rest, nonempty, next)) => {
                        let mut name = label;
                        if nonempty {
                            crate::text::push_dot(&mut name);
                            name.append(rest.as_str());
                        }
                        proof {
                            let ghost lbl = decode_utf8(payload@.subrange(
                                pos as int + 1,
                                pos as int + 1 + len as int,
                            ));
                            let ls = dns_label_list(
                                payload@,
                                pos as int + 1 + len as int,
                                depth as int,
                            ).unwrap().0;
                            if ls.len() == 0 {
                                assert(seq![lbl].add(ls) =~= seq![lbl]);
                                assert(join_sep(seq![lbl].add(ls), seq!['.']) == lbl);
                            } else {
                                assert(seq![lbl].add(ls).drop_first() =~= ls);
                                assert(seq![lbl].add(ls).len() >= 2);
                                assert(join_sep(seq![lbl].add(ls), seq!['.']) == lbl + seq!['.']
                                    + join_sep(ls, seq!['.']));
                            }
                            assert(name@ =~= join_sep(seq![lbl].add(ls), seq!['.']));
                        }
                        Ok((name, true, next))
                    },
                }
            },
        }
    }
}

/// Decodes the question name at `offset` inside `payload`, resolving
/// compression pointers, `depth` of the bounded 10 already taken; returns
/// the name's text and the offset just past the name as consumed in place.
pub fn parse_dns_name(payload: &[u8], offset: usize, depth: usize) -> (r: Result<
    (String, usize),
    DnsError,
>)
    ensures
        match dns_name_spec(payload@, offset as int, depth as int) {
            Ok((name, next)) => r matches Ok(v) && v.0@ == name && v.1 == next && next
                <= payload@.len(),
            Err(e) => r == Err::<(String, usize), DnsError>(e),
        },
{
    match dns_name_worker(payload, offset, depth) {
        Ok((name, _, next)) => Ok((name, next)),
        Err(e) => Err(e),
    }
}

/// Joins already-decoded questions with what the rest of the section gives.
pub open spec fn queries_join(prefix: Seq<Seq<char>>, rest: Result<Seq<Seq<char>>, DnsError>) -> Result<
    Seq<Seq<char>>,
    DnsError,
> {
    match rest {
        Ok(r) => Ok(prefix.add(r)),
        Err(e) => Err(e),
    }
}

/// Decodes the question names of the DNS message `payload`: reads the
/// question count at offset 4, then iterates names from offset 12, each
/// followed by four bytes of type and class. Questions past the payload
/// end are abandoned silently; a name that fails to decode fails the
/// section.
pub fn parse_dns_queries(payload: &[u8]) -> (r: Result<Vec<String>, DnsError>)
    ensures
        match dns_queries_spec(payload@) {
            Ok(qs) => r matches Ok(v) && v.deep_view() == qs,
            Err(e) => r == Err::<Vec<String>, DnsError>(e),
        },
{
    if payload.len() < 12 {
        return Err(DnsError::TooShort);
    }
    let qdcount = be16(payload, 4);
    let mut queries: Vec<String> = Vec::new();
    let mut offset: usize = 12;
    let mut i: u16 = 0;
    while i < qdcount
        invariant
            payload@.len() >= 12,
            i <= qdcount,
            qdcount == spec_be16(payload@, 4),
            offset <= payload@.len(),
            queries_join(
                queries.deep_view(),
                dns_queries_from(payload@, offset as int, qdcount - i),
            ) == dns_queries_from(payload@, 12, qdcount as int),
        decreases qdcount - i,
    {
        match parse_dns_name(payload, offset, 0) {
            Err(e) => {
                return Err(e);
            },
            Ok((name, next)) => {
                let ghost prev = queries.deep_view();
                let ghost name_view = name@;
                queries.push(name);
                proof {
                    assert(queries.deep_view() =~~= prev.push(name_view));
                    assert(prev.push(name_view) =~= prev.add(seq![name_view]));
                }
                if next > payload.len() - 4 {
                    proof {
                        assert(queries.deep_view() =~= prev.add(seq![name_view]));
                    }
                    return Ok(queries);
                }
                offset = next + 4;
                i = i + 1;
                proof {
                    assert(prev.add(seq![name_view].add(
                        dns_queries_from(payload@, offset as int, qdcount - i).unwrap(),
                    )) =~= prev.add(seq![name_view]).add(
                        dns_queries_from(payload@, offset as int, qdcount - i).unwrap(),
                    )) by {
                        if dns_queries_from(payload@, offset as int, qdcount - i) is Ok {
                        }
                    }
                }
            },
        }
    }
    proof {
        assert(queries.deep_view().add(Seq::<Seq<char>>::empty()) =~= queries.deep_view());
    }
    Ok(queries)
}

} // verus!
