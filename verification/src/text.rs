//! Verified text rendering: decimal and hexadecimal digits, MAC and IP
//! address notation, and separator-joined lists of fragments.

use vstd::prelude::*;

verus! {

/// The character for one digit value (hexadecimal digits are lower case).
pub open spec fn digit_char(d: int) -> char
    recommends
        0 <= d < 16,
{
    if d == 0 {
        '0'
    } else if d == 1 {
        '1'
    } else if d == 2 {
        '2'
    } else if d == 3 {
        '3'
    } else if d == 4 {
        '4'
    } else if d == 5 {
        '5'
    } else if d == 6 {
        '6'
    } else if d == 7 {
        '7'
    } else if d == 8 {
        '8'
    } else if d == 9 {
        '9'
    } else if d == 10 {
        'a'
    } else if d == 11 {
        'b'
    } else if d == 12 {
        'c'
    } else if d == 13 {
        'd'
    } else if d == 14 {
        'e'
    } else {
        'f'
    }
}

/// Decimal notation of a non-negative number, without leading zeros.
pub open spec fn dec_digits(n: int) -> Seq<char>
    recommends
        n >= 0,
    decreases n,
{
    if n < 10 {
        seq![digit_char(n)]
    } else {
        dec_digits(n / 10).push(digit_char(n % 10))
    }
}

/// Hexadecimal notation of a non-negative number, without leading zeros.
pub open spec fn hex_digits(n: int) -> Seq<char>
    recommends
        n >= 0,
    decreases n,
{
    if n < 16 {
        seq![digit_char(n)]
    } else {
        hex_digits(n / 16).push(digit_char(n % 16))
    }
}

/// A 16-bit value as exactly four hexadecimal digits.
pub open spec fn hex4(n: u16) -> Seq<char> {
    seq![
        digit_char(n as int / 4096 % 16),
        digit_char(n as int / 256 % 16),
        digit_char(n as int / 16 % 16),
        digit_char(n as int % 16),
    ]
}

/// A byte as exactly two hexadecimal digits.
pub open spec fn hex2(n: u8) -> Seq<char> {
    seq![digit_char(n as int / 16), digit_char(n as int % 16)]
}

/// Fragments joined by a separator: `join_sep(["a","b"], ":") == "a:b"`.
pub open spec fn join_sep(parts: Seq<Seq<char>>, sep: Seq<char>) -> Seq<char>
    decreases parts.len(),
{
    if parts.len() == 0 {
        Seq::empty()
    } else if parts.len() == 1 {
        parts[0]
    } else {
        parts[0] + sep + join_sep(parts.drop_first(), sep)
    }
}

/// Appends one digit character to `s`.
fn push_digit(s: &mut String, d: u8)
    requires
        d < 16,
    ensures
        final(s)@ == old(s)@ + seq![digit_char(d as int)],
{
    let p: &str = match d {
        0 => "0",
        1 => "1",
        2 => "2",
        3 => "3",
        4 => "4",
        5 => "5",
        6 => "6",
        7 => "7",
        8 => "8",
        9 => "9",
        10 => "a",
        11 => "b",
        12 => "c",
        13 => "d",
        14 => "e",
        _ => "f",
    };
    proof {
        reveal_strlit("0");
        reveal_strlit("1");
        reveal_strlit("2");
        reveal_strlit("3");
        reveal_strlit("4");
        reveal_strlit("5");
        reveal_strlit("6");
        reveal_strlit("7");
        reveal_strlit("8");
        reveal_strlit("9");
        reveal_strlit("a");
        reveal_strlit("b");
        reveal_strlit("c");
        reveal_strlit("d");
        reveal_strlit("e");
        reveal_strlit("f");
        assert(p@ =~= seq![digit_char(d as int)]);
    }
    s.append(p);
}

/// Appends the decimal notation of `n` to `s`.
pub fn push_dec(s: &mut String, n: u64)
    ensures
        final(s)@ == old(s)@ + dec_digits(n as int),
    decreases n,
{
    if n >= 10 {
        push_dec(s, n / 10);
    }
    push_digit(s, (n % 10) as u8);
    proof {
        if n >= 10 {
            assert(old(s)@ + dec_digits(n as int) =~= (old(s)@ + dec_digits(n as int / 10)) + seq![
                digit_char(n as int % 10),
            ]);
        } else {
            assert(old(s)@ + dec_digits(n as int) =~= old(s)@ + seq![digit_char(n as int % 10)]);
        }
    }
}

/// Appends the hexadecimal notation of `n`, without leading zeros, to `s`.
pub fn push_hex(s: &mut String, n: u16)
    ensures
        final(s)@ == old(s)@ + hex_digits(n as int),
    decreases n,
{
    if n >= 16 {
        push_hex(s, n / 16);
    }
    push_digit(s, (n % 16) as u8);
    proof {
        if n >= 16 {
            assert(old(s)@ + hex_digits(n as int) =~= (old(s)@ + hex_digits(n as int / 16)) + seq![
                digit_char(n as int % 16),
            ]);
        } else {
            assert(old(s)@ + hex_digits(n as int) =~= old(s)@ + seq![digit_char(n as int % 16)]);
        }
    }
}

/// Appends `n` as exactly four hexadecimal digits to `s`.
pub fn push_hex4(s: &mut String, n: u16)
    ensures
        final(s)@ == old(s)@ + hex4(n),
{
    push_digit(s, (n / 4096 % 16) as u8);
    push_digit(s, (n / 256 % 16) as u8);
    push_digit(s, (n / 16 % 16) as u8);
    push_digit(s, (n % 16) as u8);
    proof {
        assert(final(s)@ =~= old(s)@ + hex4(n));
    }
}

/// Appends `b` as exactly two hexadecimal digits to `s`.
pub fn push_hex2(s: &mut String, b: u8)
    ensures
        final(s)@ == old(s)@ + hex2(b),
{
    push_digit(s, b / 16);
    push_digit(s, b % 16);
    proof {
        assert(final(s)@ =~= old(s)@ + hex2(b));
    }
}

/// The `aa:bb:cc:dd:ee:ff` notation of a six-byte hardware address.
pub open spec fn mac_text(m: Seq<u8>) -> Seq<char>
    recommends
        m.len() == 6,
{
    hex2(m[0]) + seq![':'] + hex2(m[1]) + seq![':'] + hex2(m[2]) + seq![':'] + hex2(m[3]) + seq![':']
        + hex2(m[4]) + seq![':'] + hex2(m[5])
}

/// Renders a hardware address in `aa:bb:cc:dd:ee:ff` notation.
pub fn mac_to_str(mac: &[u8; 6]) -> (r: String)
    ensures
        r@ == mac_text(mac@),
{
    let mut s = String::new();
    push_hex2(&mut s, mac[0]);
    push_colon(&mut s);
    push_hex2(&mut s, mac[1]);
    push_colon(&mut s);
    push_hex2(&mut s, mac[2]);
    push_colon(&mut s);
    push_hex2(&mut s, mac[3]);
    push_colon(&mut s);
    push_hex2(&mut s, mac[4]);
    push_colon(&mut s);
    push_hex2(&mut s, mac[5]);
    proof {
        assert(s@ =~= mac_text(mac@));
    }
    s
}

/// Appends one `:` separator to `s`.
fn push_colon(s: &mut String)
    ensures
        final(s)@ == old(s)@ + seq![':'],
{
    proof {
        reveal_strlit(":");
        assert(":"@ =~= seq![':']);
    }
    s.append(":");
}

/// Appends one `.` separator to `s`.
pub(crate) fn push_dot(s: &mut String)
    ensures
        final(s)@ == old(s)@ + seq!['.'],
{
    proof {
        reveal_strlit(".");
        assert("."@ =~= seq!['.']);
    }
    s.append(".");
}

/// The dotted-decimal notation of a four-byte network address.
pub open spec fn ipv4_text(b: Seq<u8>) -> Seq<char>
    recommends
        b.len() == 4,
{
    dec_digits(b[0] as int) + seq!['.'] + dec_digits(b[1] as int) + seq!['.'] + dec_digits(
        b[2] as int,
    ) + seq!['.'] + dec_digits(b[3] as int)
}

/// Renders the four bytes of `b` at `at` in dotted-decimal notation.
pub fn push_ipv4(s: &mut String, b: &[u8], at: usize)
    requires
        at + 4 <= b@.len(),
    ensures
        final(s)@ == old(s)@ + ipv4_text(b@.subrange(at as int, at as int + 4)),
{
    push_dec(s, b[at] as u64);
    push_dot(s);
    push_dec(s, b[at + 1] as u64);
    push_dot(s);
    push_dec(s, b[at + 2] as u64);
    push_dot(s);
    push_dec(s, b[at + 3] as u64);
    proof {
        let sub = b@.subrange(at as int, at as int + 4);
        assert(b@[at as int] == sub[0] && b@[at as int + 1] == sub[1] && b@[at as int + 2] == sub[2]
            && b@[at as int + 3] == sub[3]);
        assert(final(s)@ =~= old(s)@ + ipv4_text(sub));
    }
}

/// Whether `sub` occurs anywhere in `s`.
pub open spec fn text_contains(s: Seq<char>, sub: Seq<char>) -> bool {
    exists|i: int| 0 <= i <= s.len() - sub.len() && #[trigger] s.subrange(i, i + sub.len()) == sub
}

/// Whether `s` begins with `prefix`.
pub open spec fn text_starts_with(s: Seq<char>, prefix: Seq<char>) -> bool {
    prefix.len() <= s.len() && s.subrange(0, prefix.len() as int) == prefix
}

/// Whether `s` holds nothing but spaces, tabs and line breaks.
pub open spec fn is_blank_text(s: Seq<char>) -> bool {
    forall|i: int| 0 <= i < s.len() ==> is_space_char(s[i])
}

/// The whitespace characters a blank string may be padded with.
pub open spec fn is_space_char(c: char) -> bool {
    c == ' ' || c == '\t' || c == '\n' || c == '\r'
}

/// Whether `sub` stands in `s` at position `at`.
fn matches_at(s: &str, at: usize, sub: &str) -> (r: bool)
    requires
        at + sub@.len() <= s@.len(),
    ensures
        r == (s@.subrange(at as int, at as int + sub@.len()) == sub@),
{
    let n = s.unicode_len();
    let m = sub.unicode_len();
    let mut j: usize = 0;
    while j < m
        invariant
            j <= m,
            n == s@.len(),
            m == sub@.len(),
            at + m <= n,
            forall|k: int| 0 <= k < j ==> s@[at + k] == sub@[k],
        decreases m - j,
    {
        if s.get_char(at + j) != sub.get_char(j) {
            proof {
                assert(s@.subrange(at as int, at as int + m) != sub@) by {
                    assert(s@.subrange(at as int, at as int + m)[j as int] != sub@[j as int]);
                }
            }
            return false;
        }
        j = j + 1;
    }
    proof {
        assert(s@.subrange(at as int, at as int + m) =~= sub@);
    }
    true
}

/// Decides whether `sub` occurs anywhere in `s`.
pub fn str_contains(s: &str, sub: &str) -> (r: bool)
    ensures
        r == text_contains(s@, sub@),
{
    let n = s.unicode_len();
    let m = sub.unicode_len();
    if m > n {
        return false;
    }
    if m == 0 {
        proof {
            assert(s@.subrange(0, 0 + sub@.len() as int) =~= sub@);
        }
        return true;
    }
    let mut i: usize = 0;
    while i <= n - m
        invariant
            1 <= m <= n,
            n == s@.len(),
            m == sub@.len(),
            i <= n - m + 1,
            forall|k: int| 0 <= k < i ==> #[trigger] s@.subrange(k, k + m as int) != sub@,
        decreases n - m - i + 1,
    {
        if matches_at(s, i, sub) {
            return true;
        }
        i = i + 1;
    }
    false
}

/// Decides whether `s` begins with `prefix`.
pub fn str_starts_with(s: &str, prefix: &str) -> (r: bool)
    ensures
        r == text_starts_with(s@, prefix@),
{
    if prefix.unicode_len() > s.unicode_len() {
        return false;
    }
    matches_at(s, 0, prefix)
}

/// Decides whether `s` is blank (only spaces, tabs and line breaks).
pub fn str_is_blank(s: &str) -> (r: bool)
    ensures
        r <==> is_blank_text(s@),
{
    let n = s.unicode_len();
    let mut i: usize = 0;
    while i < n
        invariant
            i <= n,
            n == s@.len(),
            forall|j: int| 0 <= j < i ==> is_space_char(s@[j]),
        decreases n - i,
    {
        let c = s.get_char(i);
        if !(c == ' ' || c == '\t' || c == '\n' || c == '\r') {
            return false;
        }
        i = i + 1;
    }
    true
}

/// The eight 16-bit groups of a sixteen-byte network address.
pub open spec fn ipv6_groups(m: Seq<u8>) -> Seq<u16>
    recommends
        m.len() == 16,
{
    Seq::new(8, |i: int| crate::bytes::spec_be16(m, 2 * i))
}

/// How many consecutive groups of `g`, starting at `i`, are zero.
pub open spec fn zero_run_len(g: Seq<u16>, i: int) -> int
    recommends
        0 <= i <= g.len(),
    decreases g.len() - i,
{
    if i < 0 || i >= g.len() || g[i] != 0 {
        0
    } else {
        1 + zero_run_len(g, i + 1)
    }
}

/// The start of the longest run of zero groups at or after `i`
/// (the leftmost such run when several have the same length).
pub open spec fn best_zero_start(g: Seq<u16>, i: int) -> int
    recommends
        0 <= i <= g.len(),
    decreases g.len() - i,
{
    if i >= g.len() {
        i
    } else {
        let rest = best_zero_start(g, i + 1);
        if zero_run_len(g, i) >= zero_run_len(g, rest) {
            i
        } else {
            rest
        }
    }
}

/// The groups `g[from..to]` in hexadecimal, joined by `:`.
pub open spec fn groups_text(g: Seq<u16>, from: int, to: int) -> Seq<char>
    recommends
        0 <= from <= to <= g.len(),
    decreases to - from,
{
    if from >= to {
        Seq::empty()
    } else if from + 1 == to {
        hex_digits(g[from] as int)
    } else {
        hex_digits(g[from] as int) + seq![':'] + groups_text(g, from + 1, to)
    }
}

/// The canonical colon notation of a sixteen-byte network address:
/// hexadecimal groups without leading zeros, the longest run of at least
/// two zero groups (the leftmost on a tie) compressed to `::`, the
/// all-zero address written `::`, and an address whose first five groups
/// are zero and whose sixth is `ffff` written `::ffff:` followed by the
/// dotted-decimal form of the last four bytes.
pub open spec fn ipv6_text(m: Seq<u8>) -> Seq<char>
    recommends
        m.len() == 16,
{
    let g = ipv6_groups(m);
    if zero_run_len(g, 0) == 8 {
        seq![':', ':']
    } else if g[0] == 0 && g[1] == 0 && g[2] == 0 && g[3] == 0 && g[4] == 0 && g[5] == 0xffff {
        seq![':', ':', 'f', 'f', 'f', 'f', ':'] + ipv4_text(m.subrange(12, 16))
    } else {
        let b = best_zero_start(g, 0);
        let l = zero_run_len(g, b);
        if l >= 2 {
            groups_text(g, 0, b) + seq![':', ':'] + groups_text(g, b + l, 8)
        } else {
            groups_text(g, 0, 8)
        }
    }
}

/// Counts the zero groups of `g` from `i` on.
fn zrun(g: &Vec<u16>, i: usize) -> (r: usize)
    requires
        i <= g@.len(),
    ensures
        r == zero_run_len(g@, i as int),
        i + r <= g@.len(),
    decreases g@.len() - i,
{
    if i >= g.len() || g[i] != 0 {
        0
    } else {
        1 + zrun(g, i + 1)
    }
}

/// Finds the leftmost longest zero run of `g` at or after `i`.
fn best_start(g: &Vec<u16>, i: usize) -> (r: usize)
    requires
        i <= g@.len(),
    ensures
        r == best_zero_start(g@, i as int),
        i <= r <= g@.len(),
    decreases g@.len() - i,
{
    if i >= g.len() {
        i
    } else {
        let rest = best_start(g, i + 1);
        if zrun(g, i) >= zrun(g, rest) {
            i
        } else {
            rest
        }
    }
}

/// Appends the groups `g[from..to]` in hexadecimal, joined by `:`.
fn push_groups(s: &mut String, g: &Vec<u16>, from: usize, to: usize)
    requires
        from <= to <= g@.len(),
    ensures
        final(s)@ == old(s)@ + groups_text(g@, from as int, to as int),
    decreases to - from,
{
    if from < to {
        push_hex(s, g[from]);
        if from + 1 < to {
            push_colon(s);
            push_groups(s, g, from + 1, to);
        }
    }
    proof {
        assert(final(s)@ =~= old(s)@ + groups_text(g@, from as int, to as int));
    }
}

/// Renders the sixteen bytes of `b` at `at` in canonical colon notation.
pub fn ipv6_to_string(b: &[u8], at: usize) -> (r: String)
    requires
        at + 16 <= b@.len(),
    ensures
        r@ == ipv6_text(b@.subrange(at as int, at as int + 16)),
{
    let ghost m = b@.subrange(at as int, at as int + 16);
    let n = b.len();
    let mut g: Vec<u16> = Vec::new();
    let mut k: usize = 0;
    while k < 8
        invariant
            k <= 8,
            at + 16 <= n == b@.len(),
            g@.len() == k,
            m == b@.subrange(at as int, at as int + 16),
            forall|j: int| 0 <= j < k ==> g@[j] == ipv6_groups(m)[j],
        decreases 8 - k,
    {
        let v = crate::bytes::be16(b, at + 2 * k);
        proof {
            assert(m[2 * k as int] == b@[at as int + 2 * k]);
            assert(m[2 * k as int + 1] == b@[at as int + 2 * k + 1]);
        }
        g.push(v);
        k = k + 1;
    }
    proof {
        assert(g@ =~= ipv6_groups(m));
    }
    if zrun(&g, 0) == 8 {
        let s = String::from_str("::");
        proof {
            reveal_strlit("::");
            assert(s@ =~= ipv6_text(m));
        }
        return s;
    }
    if g[0] == 0 && g[1] == 0 && g[2] == 0 && g[3] == 0 && g[4] == 0 && g[5] == 0xffff {
        let mut s = String::from_str("::ffff:");
        proof {
            reveal_strlit("::ffff:");
            assert(s@ =~= seq![':', ':', 'f', 'f', 'f', 'f', ':']);
        }
        push_ipv4(&mut s, b, at + 12);
        proof {
            assert(b@.subrange(at as int + 12, at as int + 16) =~= m.subrange(12, 16));
            assert(s@ =~= ipv6_text(m));
        }
        return s;
    }
    let bs = best_start(&g, 0);
    let bl = zrun(&g, bs);
    let mut s = String::new();
    if bl >= 2 {
        push_groups(&mut s, &g, 0, bs);
        push_colon(&mut s);
        push_colon(&mut s);
        push_groups(&mut s, &g, bs + bl, 8);
    } else {
        push_groups(&mut s, &g, 0, 8);
    }
    proof {
        assert(s@ =~= ipv6_text(m));
    }
    s
}

} // verus!
