//! Aggregate per-category packet counters: a total map from category to
//! count, monotonically increasing for the lifetime of one capture run.

use vstd::prelude::*;
use crate::packet::{PacketType, type_label_text};
use crate::text::dec_digits;

verus! {

/// The count recorded for EtherType `t` in a key-value list (0 when the
/// key is absent; the first occurrence decides when keys repeat).
pub open spec fn other_count(s: Seq<(u16, u64)>, t: u16) -> nat
    decreases s.len(),
{
    if s.len() == 0 {
        0
    } else if s[0].0 == t {
        s[0].1 as nat
    } else {
        other_count(s.drop_first(), t)
    }
}

/// How many entries of `s` are the category `c`.
pub open spec fn occurrences(s: Seq<PacketType>, c: PacketType) -> nat
    decreases s.len(),
{
    if s.len() == 0 {
        0
    } else {
        occurrences(s.drop_last(), c) + if s.last() == c {
            1nat
        } else {
            0nat
        }
    }
}

/// The entries of `s` whose count is positive, in order.
pub open spec fn positive_entries(s: Seq<(PacketType, u64)>) -> Seq<(PacketType, u64)>
    decreases s.len(),
{
    if s.len() == 0 {
        Seq::empty()
    } else {
        let rest = positive_entries(s.drop_last());
        if s.last().1 > 0 {
            rest.push(s.last())
        } else {
            rest
        }
    }
}

/// A mapping from packet category to a monotonically increasing count.
/// Every category starts at 0; an unrecognized EtherType gets its own
/// entry on first use.
pub struct AggregateCounters {
    ethernet: u64,
    ipv4: u64,
    ipv6: u64,
    tcp: u64,
    udp: u64,
    dns: u64,
    other: Vec<(u16, u64)>,
}

impl AggregateCounters {
    /// Entries for unrecognized EtherTypes have distinct keys and are
    /// only ever created by an increment, so each holds at least 1.
    pub closed spec fn wf(self) -> bool {
        &&& (forall|i: int, j: int|
            0 <= i < j < self.other@.len() ==> self.other@[i].0 != self.other@[j].0)
        &&& (forall|i: int| 0 <= i < self.other@.len() ==> self.other@[i].1 >= 1)
    }

    /// The count recorded for category `c`.
    pub closed spec fn count_of(self, c: PacketType) -> nat {
        match c {
            PacketType::Ethernet => self.ethernet as nat,
            PacketType::IPv4 => self.ipv4 as nat,
            PacketType::IPv6 => self.ipv6 as nat,
            PacketType::TCP => self.tcp as nat,
            PacketType::UDP => self.udp as nat,
            PacketType::DNS => self.dns as nat,
            PacketType::Other(t) => other_count(self.other@, t),
        }
    }

    /// A fresh mapping: every category counts 0.
    pub fn new() -> (r: Self)
        ensures
            r.wf(),
            forall|c: PacketType| r.count_of(c) == 0,
    {
        let r = AggregateCounters {
            ethernet: 0,
            ipv4: 0,
            ipv6: 0,
            tcp: 0,
            udp: 0,
            dns: 0,
            other: Vec::new(),
        };
        proof {
            assert(forall|c: PacketType| r.count_of(c) == 0) by {
                assert(forall|t: u16| other_count(r.other@, t) == 0);
            }
        }
        r
    }

    /// Raises the count of `c` by one and changes no other count.
    pub fn increment(&mut self, c: PacketType)
        requires
            old(self).wf(),
            old(self).count_of(c) < u64::MAX,
        ensures
            final(self).wf(),
            final(self).count_of(c) == old(self).count_of(c) + 1,
            forall|c2: PacketType| c2 != c ==> final(self).count_of(c2) == old(self).count_of(c2),
    {
        match c {
            PacketType::Ethernet => {
                self.ethernet = self.ethernet + 1;
            },
            PacketType::IPv4 => {
                self.ipv4 = self.ipv4 + 1;
            },
            PacketType::IPv6 => {
                self.ipv6 = self.ipv6 + 1;
            },
            PacketType::TCP => {
                self.tcp = self.tcp + 1;
            },
            PacketType::UDP => {
                self.udp = self.udp + 1;
            },
            PacketType::DNS => {
                self.dns = self.dns + 1;
            },
            PacketType::Other(t) => {
                self.bump_other(t);
            },
        }
    }

    /// Finds or creates the entry of EtherType `t` and raises its count.
    fn bump_other(&mut self, t: u16)
        requires
            old(self).wf(),
            other_count(old(self).other@, t) < u64::MAX,
        ensures
            final(self).wf(),
            other_count(final(self).other@, t) == other_count(old(self).other@, t) + 1,
            forall|t2: u16|
                t2 != t ==> other_count(final(self).other@, t2) == other_count(
                    old(self).other@,
                    t2,
                ),
            final(self).ethernet == old(self).ethernet,
            final(self).ipv4 == old(self).ipv4,
            final(self).ipv6 == old(self).ipv6,
            final(self).tcp == old(self).tcp,
            final(self).udp == old(self).udp,
            final(self).dns == old(self).dns,
    {
        let ghost s0 = self.other@;
        let mut i: usize = 0;
        while i < self.other.len()
            invariant
                i <= self.other@.len(),
                *self == *old(self),
                s0 == self.other@,
                old(self).wf(),
                other_count(old(self).other@, t) < u64::MAX,
                forall|j: int| 0 <= j < i ==> self.other@[j].0 != t,
            decreases self.other@.len() - i,
        {
            if self.other[i].0 == t {
                proof {
                    assert(s0[i as int].0 == t);
                    lemma_other_count_at(s0, i as int);
                    assert(s0[i as int].1 < u64::MAX);
                }
                let v = self.other[i].1;
                self.other[i] = (t, v + 1);
                proof {
                    assert(self.other@ == s0.update(i as int, (t, (v + 1) as u64)));
                    lemma_other_count_update(s0, i as int, (v + 1) as u64);
                    assert forall|a: int, b: int|
                        0 <= a < b < self.other@.len() implies self.other@[a].0
                        != self.other@[b].0 by {
                        if a == i {
                            assert(self.other@[a].0 == t == s0[a].0);
                        } else {
                            assert(self.other@[a] == s0[a]);
                        }
                        if b == i {
                            assert(self.other@[b].0 == t == s0[b].0);
                        } else {
                            assert(self.other@[b] == s0[b]);
                        }
                    }
                }
                return ;
            }
            i = i + 1;
        }
        proof {
            lemma_other_count_absent(s0, t);
        }
        self.other.push((t, 1));
        proof {
            lemma_other_count_push(s0, t, 1);
            assert forall|a: int, b: int|
                0 <= a < b < self.other@.len() implies self.other@[a].0 != self.other@[b].0 by {
                if b < s0.len() {
                    assert(self.other@[a] == s0[a] && self.other@[b] == s0[b]);
                } else {
                    assert(self.other@[b].0 == t && self.other@[a] == s0[a]);
                }
            }
        }
    }

    /// Reads the count recorded for category `c`.
    pub fn count(&self, c: &PacketType) -> (r: u64)
        requires
            self.wf(),
        ensures
            r == self.count_of(*c),
    {
        match c {
            PacketType::Ethernet => self.ethernet,
            PacketType::IPv4 => self.ipv4,
            PacketType::IPv6 => self.ipv6,
            PacketType::TCP => self.tcp,
            PacketType::UDP => self.udp,
            PacketType::DNS => self.dns,
            PacketType::Other(t) => {
                let mut i: usize = 0;
                while i < self.other.len()
                    invariant
                        i <= self.other@.len(),
                        *c == PacketType::Other(*t),
                        forall|j: int| 0 <= j < i ==> self.other@[j].0 != *t,
                    decreases self.other@.len() - i,
                {
                    if self.other[i].0 == *t {
                        proof {
                            lemma_other_count_at(self.other@, i as int);
                        }
                        return self.other[i].1;
                    }
                    i = i + 1;
                }
                proof {
                    lemma_other_count_absent(self.other@, *t);
                }
                0
            },
        }
    }

    /// Whether every count can still be raised without reaching the
    /// integer ceiling (the capture loop checks this before counting).
    pub fn all_below_max(&self) -> (r: bool)
        requires
            self.wf(),
        ensures
            r <==> (forall|c: PacketType| self.count_of(c) < u64::MAX),
    {
        if !(self.ethernet < u64::MAX && self.ipv4 < u64::MAX && self.ipv6 < u64::MAX && self.tcp
            < u64::MAX && self.udp < u64::MAX && self.dns < u64::MAX) {
            proof {
                if self.ethernet == u64::MAX {
                    assert(self.count_of(PacketType::Ethernet) >= u64::MAX);
                } else if self.ipv4 == u64::MAX {
                    assert(self.count_of(PacketType::IPv4) >= u64::MAX);
                } else if self.ipv6 == u64::MAX {
                    assert(self.count_of(PacketType::IPv6) >= u64::MAX);
                } else if self.tcp == u64::MAX {
                    assert(self.count_of(PacketType::TCP) >= u64::MAX);
                } else if self.udp == u64::MAX {
                    assert(self.count_of(PacketType::UDP) >= u64::MAX);
                } else {
                    assert(self.count_of(PacketType::DNS) >= u64::MAX);
                }
            }
            return false;
        }
        let mut i: usize = 0;
        while i < self.other.len()
            invariant
                i <= self.other@.len(),
                self.wf(),
                forall|j: int| 0 <= j < i ==> self.other@[j].1 < u64::MAX,
            decreases self.other@.len() - i,
        {
            if self.other[i].1 == u64::MAX {
                proof {
                    lemma_other_count_at(self.other@, i as int);
                    assert(self.count_of(PacketType::Other(self.other@[i as int].0))
                        >= u64::MAX);
                }
                return false;
            }
            i = i + 1;
        }
        proof {
            assert forall|c: PacketType| self.count_of(c) < u64::MAX by {
                match c {
                    PacketType::Other(t) => {
                        if other_count(self.other@, t) > 0 {
                            lemma_other_count_absent_converse(self.other@, t);
                            let j = choose|j: int|
                                0 <= j < self.other@.len() && #[trigger] self.other@[j].0 == t;
                            lemma_other_count_at(self.other@, j);
                        }
                    },
                    _ => {
                    },
                }
            }
        }
        true
    }

    /// Whether no packet has been counted yet.
    pub fn is_empty(&self) -> (r: bool)
        requires
            self.wf(),
        ensures
            r <==> (forall|c: PacketType| self.count_of(c) == 0),
    {
        let r = self.ethernet == 0 && self.ipv4 == 0 && self.ipv6 == 0 && self.tcp == 0 && self.udp
            == 0 && self.dns == 0 && self.other.len() == 0;
        proof {
            if r {
                assert(forall|c: PacketType| self.count_of(c) == 0) by {
                    assert(forall|t: u16| other_count(self.other@, t) == 0);
                }
            } else {
                if self.ethernet != 0 {
                    assert(self.count_of(PacketType::Ethernet) != 0);
                } else if self.ipv4 != 0 {
                    assert(self.count_of(PacketType::IPv4) != 0);
                } else if self.ipv6 != 0 {
                    assert(self.count_of(PacketType::IPv6) != 0);
                } else if self.tcp != 0 {
                    assert(self.count_of(PacketType::TCP) != 0);
                } else if self.udp != 0 {
                    assert(self.count_of(PacketType::UDP) != 0);
                } else if self.dns != 0 {
                    assert(self.count_of(PacketType::DNS) != 0);
                } else {
                    assert(self.count_of(PacketType::Other(self.other@[0].0)) >= 1);
                }
            }
        }
        r
    }

    /// The categories seen so far, each with its count: exactly those
    /// whose count is positive, each once, in a fixed order (the six
    /// recognized categories first, then unrecognized EtherTypes in
    /// order of first appearance).
    #[verifier::rlimit(50)]
    pub fn entries(&self) -> (r: Vec<(PacketType, u64)>)
        requires
            self.wf(),
        ensures
            forall|i: int| 0 <= i < r@.len() ==> r@[i].1 == self.count_of(r@[i].0) && r@[i].1 > 0,
            forall|c: PacketType|
                self.count_of(c) > 0 ==> exists|i: int| 0 <= i < r@.len() && #[trigger] r@[i].0
                    == c,
            forall|i: int, j: int| 0 <= i < j < r@.len() ==> r@[i].0 != r@[j].0,
    {
        let mut cand: Vec<(PacketType, u64)> = Vec::new();
        cand.push((PacketType::Ethernet, self.ethernet));
        cand.push((PacketType::IPv4, self.ipv4));
        cand.push((PacketType::IPv6, self.ipv6));
        cand.push((PacketType::TCP, self.tcp));
        cand.push((PacketType::UDP, self.udp));
        cand.push((PacketType::DNS, self.dns));
        let mut k: usize = 0;
        while k < self.other.len()
            invariant
                self.wf(),
                k <= self.other@.len(),
                cand@.len() == 6 + k,
                cand@[0] == (PacketType::Ethernet, self.ethernet),
                cand@[1] == (PacketType::IPv4, self.ipv4),
                cand@[2] == (PacketType::IPv6, self.ipv6),
                cand@[3] == (PacketType::TCP, self.tcp),
                cand@[4] == (PacketType::UDP, self.udp),
                cand@[5] == (PacketType::DNS, self.dns),
                forall|j: int|
                    0 <= j < k ==> cand@[6 + j] == (
                        PacketType::Other(self.other@[j].0),
                        self.other@[j].1,
                    ),
            decreases self.other@.len() - k,
        {
            let e = self.other[k];
            cand.push((PacketType::Other(e.0), e.1));
            k = k + 1;
        }
        proof {
            assert forall|i: int|
                0 <= i < cand@.len() implies #[trigger] cand@[i].1 == self.count_of(
                cand@[i].0,
            ) by {
                if i >= 6 {
                    let a = i - 6;
                    assert(cand@[6 + a] == (PacketType::Other(self.other@[a].0), self.other@[a].1));
                    lemma_other_count_at(self.other@, a);
                }
            }
            assert forall|i: int, j: int|
                0 <= i < j < cand@.len() implies cand@[i].0 != cand@[j].0 by {
                if i >= 6 {
                    let a = i - 6;
                    assert(cand@[6 + a] == (PacketType::Other(self.other@[a].0), self.other@[a].1));
                }
                if j >= 6 {
                    let b = j - 6;
                    assert(cand@[6 + b] == (PacketType::Other(self.other@[b].0), self.other@[b].1));
                }
                if i >= 6 && j >= 6 {
                    assert(self.other@[i - 6].0 != self.other@[j - 6].0);
                }
            }
            assert forall|c: PacketType| self.count_of(c) > 0 implies exists|i: int|
                0 <= i < cand@.len() && #[trigger] cand@[i].0 == c by {
                match c {
                    PacketType::Ethernet => {
                        assert(cand@[0].0 == c);
                    },
                    PacketType::IPv4 => {
                        assert(cand@[1].0 == c);
                    },
                    PacketType::IPv6 => {
                        assert(cand@[2].0 == c);
                    },
                    PacketType::TCP => {
                        assert(cand@[3].0 == c);
                    },
                    PacketType::UDP => {
                        assert(cand@[4].0 == c);
                    },
                    PacketType::DNS => {
                        assert(cand@[5].0 == c);
                    },
                    PacketType::Other(t) => {
                        lemma_other_count_absent_converse(self.other@, t);
                        let j = choose|j: int| 0 <= j < self.other@.len() && #[trigger] self
                            .other@[j].0 == t;
                        assert(cand@[6 + j] == (
                            PacketType::Other(self.other@[j].0),
                            self.other@[j].1,
                        ));
                        assert(cand@[6 + j].0 == c);
                    },
                }
            }
        }
        let mut r: Vec<(PacketType, u64)> = Vec::new();
        let mut m: usize = 0;
        proof {
            assert(cand@.take(0) =~= Seq::<(PacketType, u64)>::empty());
        }
        while m < cand.len()
            invariant
                m <= cand@.len(),
                r@ == positive_entries(cand@.take(m as int)),
            decreases cand@.len() - m,
        {
            proof {
                assert(cand@.take(m as int + 1).drop_last() =~= cand@.take(m as int));
                assert(cand@.take(m as int + 1).last() == cand@[m as int]);
            }
            let e = cand[m];
            if e.1 > 0 {
                r.push(e);
            }
            m = m + 1;
        }
        proof {
            assert(cand@.take(cand@.len() as int) =~= cand@);
            assert(r@ == positive_entries(cand@));
            lemma_positive_entries(cand@);
            lemma_positive_entries_distinct(cand@);
            assert forall|i: int|
                0 <= i < r@.len() implies r@[i].1 == self.count_of(r@[i].0) && r@[i].1 > 0 by {
                assert((positive_entries(cand@)[i]).1 > 0 && cand@.contains(
                    positive_entries(cand@)[i],
                ));
                assert(cand@.contains(r@[i]));
                let j = choose|j: int| 0 <= j < cand@.len() && cand@[j] == r@[i];
                assert(cand@[j].1 == self.count_of(cand@[j].0));
            }
            assert forall|c: PacketType| self.count_of(c) > 0 implies exists|i: int|
                0 <= i < r@.len() && #[trigger] r@[i].0 == c by {
                let j = choose|j: int| 0 <= j < cand@.len() && #[trigger] cand@[j].0 == c;
                assert(cand@[j].1 == self.count_of(c));
                assert((cand@[j]).1 > 0);
                assert(positive_entries(cand@).contains(cand@[j]));
                assert(r@.contains(cand@[j]));
                let i = choose|i: int| 0 <= i < r@.len() && r@[i] == cand@[j];
                assert(r@[i].0 == c);
            }
        }
        r
    }

    /// Raises, in order, the count of each category in `cats` by one:
    /// afterwards every category's count has grown by exactly the number
    /// of times it occurs in `cats`, so a run of N frames of one category
    /// adds exactly N to that category's count and nothing anywhere else.
    pub fn record_all(&mut self, cats: &Vec<PacketType>)
        requires
            old(self).wf(),
            forall|c: PacketType| old(self).count_of(c) + occurrences(cats@, c) <= u64::MAX,
        ensures
            final(self).wf(),
            forall|c: PacketType|
                final(self).count_of(c) == old(self).count_of(c) + occurrences(cats@, c),
    {
        let mut k: usize = 0;
        proof {
            assert(cats@.take(0) =~= Seq::<PacketType>::empty());
        }
        while k < cats.len()
            invariant
                self.wf(),
                k <= cats@.len(),
                forall|c: PacketType| old(self).count_of(c) + occurrences(cats@, c) <= u64::MAX,
                forall|c: PacketType|
                    self.count_of(c) == old(self).count_of(c) + occurrences(
                        cats@.take(k as int),
                        c,
                    ),
            decreases cats@.len() - k,
        {
            let c = cats[k];
            proof {
                lemma_occurrences_take_succ(cats@, k as int);
                lemma_occurrences_take_le(cats@, k as int + 1);
            }
            self.increment(c);
            k = k + 1;
            proof {
                assert forall|c2: PacketType|
                    self.count_of(c2) == old(self).count_of(c2) + occurrences(
                        cats@.take(k as int),
                        c2,
                    ) by {
                    lemma_occurrences_take_succ(cats@, k as int - 1);
                }
            }
        }
        proof {
            assert(cats@.take(cats@.len() as int) =~= cats@);
        }
    }
}

/// One line of the final summary: two spaces, the category's label, a
/// colon and the count.
pub open spec fn summary_line_text(c: PacketType, n: u64) -> Seq<char> {
    "  "@ + type_label_text(c) + ": "@ + dec_digits(n as int)
}

/// Renders one line of the final summary.
pub fn summary_line(c: &PacketType, n: u64) -> (r: String)
    ensures
        r@ == summary_line_text(*c, n),
{
    let mut s = String::from_str("  ");
    let label = c.type_label();
    s.append(label.as_str());
    s.append(": ");
    crate::text::push_dec(&mut s, n);
    proof {
        assert(s@ =~= summary_line_text(*c, n));
    }
    s
}

/// The first occurrence of a key decides its count.
proof fn lemma_other_count_at(s: Seq<(u16, u64)>, i: int)
    requires
        0 <= i < s.len(),
        forall|j: int| 0 <= j < i ==> s[j].0 != s[i].0,
    ensures
        other_count(s, s[i].0) == s[i].1,
    decreases i,
{
    if i > 0 {
        assert(s.drop_first()[i - 1] == s[i]);
        assert(forall|j: int| 0 <= j < i - 1 ==> s.drop_first()[j] == s[j + 1]);
        lemma_other_count_at(s.drop_first(), i - 1);
    }
}

/// Updating the first occurrence of a key sets its count and no other.
proof fn lemma_other_count_update(s: Seq<(u16, u64)>, i: int, v: u64)
    requires
        0 <= i < s.len(),
        forall|j: int| 0 <= j < i ==> s[j].0 != s[i].0,
    ensures
        other_count(s.update(i, (s[i].0, v)), s[i].0) == v,
        forall|t2: u16|
            t2 != s[i].0 ==> other_count(s.update(i, (s[i].0, v)), t2) == other_count(s, t2),
    decreases i,
{
    let u = s.update(i, (s[i].0, v));
    if i == 0 {
        assert(u.drop_first() =~= s.drop_first());
        assert forall|t2: u16| t2 != s[i].0 implies other_count(u, t2) == other_count(s, t2) by {
            assert(u[0].0 == s[0].0);
        }
    } else {
        assert(u[0] == s[0]);
        let w = s.drop_first().update(i - 1, (s[i].0, v));
        assert(u.drop_first() =~= w);
        assert(s.drop_first()[i - 1] == s[i]);
        assert(forall|j: int| 0 <= j < i - 1 ==> s.drop_first()[j] == s[j + 1]);
        lemma_other_count_update(s.drop_first(), i - 1, v);
        assert(other_count(w, s[i].0) == v);
        assert(other_count(u, s[i].0) == other_count(u.drop_first(), s[i].0));
        assert forall|t2: u16| t2 != s[i].0 implies other_count(u, t2) == other_count(s, t2) by {
            assert(other_count(w, t2) == other_count(s.drop_first(), t2));
            if t2 == s[0].0 {
                assert(other_count(u, t2) == u[0].1 as nat);
                assert(other_count(s, t2) == s[0].1 as nat);
            } else {
                assert(other_count(u, t2) == other_count(u.drop_first(), t2));
                assert(other_count(s, t2) == other_count(s.drop_first(), t2));
            }
        }
    }
}

/// An absent key counts 0.
proof fn lemma_other_count_absent(s: Seq<(u16, u64)>, t: u16)
    requires
        forall|j: int| 0 <= j < s.len() ==> s[j].0 != t,
    ensures
        other_count(s, t) == 0,
    decreases s.len(),
{
    if s.len() > 0 {
        assert(forall|j: int| 0 <= j < s.drop_first().len() ==> s.drop_first()[j] == s[j + 1]);
        lemma_other_count_absent(s.drop_first(), t);
    }
}

/// A positive count means the key is present.
proof fn lemma_other_count_absent_converse(s: Seq<(u16, u64)>, t: u16)
    requires
        other_count(s, t) > 0,
    ensures
        exists|j: int| 0 <= j < s.len() && #[trigger] s[j].0 == t,
    decreases s.len(),
{
    if s.len() > 0 {
        if s[0].0 == t {
            assert(s[0].0 == t);
        } else {
            lemma_other_count_absent_converse(s.drop_first(), t);
            let j = choose|j: int| 0 <= j < s.drop_first().len() && #[trigger] s.drop_first()[j].0
                == t;
            assert(s[j + 1].0 == t);
        }
    }
}

/// Appending a fresh key gives it that count and changes no other.
proof fn lemma_other_count_push(s: Seq<(u16, u64)>, t: u16, v: u64)
    requires
        forall|j: int| 0 <= j < s.len() ==> s[j].0 != t,
    ensures
        other_count(s.push((t, v)), t) == v,
        forall|t2: u16| t2 != t ==> other_count(s.push((t, v)), t2) == other_count(s, t2),
    decreases s.len(),
{
    let u = s.push((t, v));
    if s.len() == 0 {
        assert(u[0] == (t, v));
        assert(u.drop_first() =~= Seq::<(u16, u64)>::empty());
        assert forall|t2: u16| t2 != t implies other_count(u, t2) == other_count(s, t2) by {
            assert(other_count(u.drop_first(), t2) == 0);
        }
    } else {
        assert(u[0] == s[0]);
        let w = s.drop_first().push((t, v));
        assert(u.drop_first() =~= w);
        assert(forall|j: int| 0 <= j < s.drop_first().len() ==> s.drop_first()[j] == s[j + 1]);
        lemma_other_count_push(s.drop_first(), t, v);
        assert(other_count(w, t) == v);
        assert(other_count(u, t) == other_count(u.drop_first(), t));
        assert forall|t2: u16| t2 != t implies other_count(u, t2) == other_count(s, t2) by {
            assert(other_count(w, t2) == other_count(s.drop_first(), t2));
            if t2 == s[0].0 {
                assert(other_count(u, t2) == u[0].1 as nat);
                assert(other_count(s, t2) == s[0].1 as nat);
            } else {
                assert(other_count(u, t2) == other_count(u.drop_first(), t2));
                assert(other_count(s, t2) == other_count(s.drop_first(), t2));
            }
        }
    }
}

/// Every filtered entry is positive and came from the list; every
/// positive entry of the list survives the filter.
proof fn lemma_positive_entries(s: Seq<(PacketType, u64)>)
    ensures
        forall|i: int|
            0 <= i < positive_entries(s).len() ==> (#[trigger] positive_entries(s)[i]).1 > 0
                && s.contains(positive_entries(s)[i]),
        forall|j: int|
            0 <= j < s.len() && (#[trigger] s[j]).1 > 0 ==> positive_entries(s).contains(s[j]),
    decreases s.len(),
{
    if s.len() > 0 {
        let sdl = s.drop_last();
        lemma_positive_entries(sdl);
        let p = positive_entries(s);
        let q = positive_entries(sdl);
        assert(forall|i: int| 0 <= i < sdl.len() ==> #[trigger] sdl[i] == s[i]);
        assert forall|i: int|
            0 <= i < p.len() implies (#[trigger] p[i]).1 > 0 && s.contains(p[i]) by {
            if i < q.len() {
                assert(p[i] == q[i]);
                assert(q[i].1 > 0 && sdl.contains(q[i]));
                let j = choose|j: int| 0 <= j < sdl.len() && sdl[j] == q[i];
                assert(s[j] == p[i]);
            } else {
                assert(s.last().1 > 0 && p[i] == s.last());
                assert(s[s.len() - 1] == p[i]);
            }
        }
        assert forall|j: int|
            0 <= j < s.len() && (#[trigger] s[j]).1 > 0 implies p.contains(s[j]) by {
            if j < s.len() - 1 {
                assert(sdl[j] == s[j]);
                assert(q.contains(sdl[j]));
                let i = choose|i: int| 0 <= i < q.len() && q[i] == sdl[j];
                assert(p[i] == s[j]);
            } else {
                assert(p[p.len() - 1] == s[j]);
            }
        }
    }
}

/// Distinct keys stay distinct through the filter.
proof fn lemma_positive_entries_distinct(s: Seq<(PacketType, u64)>)
    requires
        forall|i: int, j: int| 0 <= i < j < s.len() ==> s[i].0 != s[j].0,
    ensures
        forall|i: int, j: int|
            0 <= i < j < positive_entries(s).len() ==> positive_entries(s)[i].0
                != positive_entries(s)[j].0,
    decreases s.len(),
{
    if s.len() > 0 {
        let sdl = s.drop_last();
        assert(forall|i: int| 0 <= i < sdl.len() ==> #[trigger] sdl[i] == s[i]);
        lemma_positive_entries_distinct(sdl);
        lemma_positive_entries(sdl);
        let p = positive_entries(s);
        let q = positive_entries(sdl);
        assert forall|i: int, j: int| 0 <= i < j < p.len() implies p[i].0 != p[j].0 by {
            if j < q.len() {
                assert(p[i] == q[i] && p[j] == q[j]);
            } else if j == q.len() && p.len() > q.len() {
                assert(p[j] == s.last());
                assert(p[i] == q[i]);
                assert((q[i]).1 > 0 && sdl.contains(q[i]));
                let m = choose|m: int| 0 <= m < sdl.len() && sdl[m] == q[i];
                assert(q[i].0 == s[m].0);
                assert(s[m].0 != s[s.len() - 1].0);
            }
        }
    }
}

/// One more element of the prefix adds its occurrence.
proof fn lemma_occurrences_take_succ(s: Seq<PacketType>, k: int)
    requires
        0 <= k < s.len(),
    ensures
        forall|c: PacketType|
            occurrences(s.take(k + 1), c) == occurrences(s.take(k), c) + if s[k] == c {
                1nat
            } else {
                0nat
            },
{
    assert(s.take(k + 1).drop_last() =~= s.take(k));
    assert(s.take(k + 1).last() == s[k]);
}

/// A prefix has no more occurrences than the whole.
proof fn lemma_occurrences_take_le(s: Seq<PacketType>, k: int)
    requires
        0 <= k <= s.len(),
    ensures
        forall|c: PacketType| occurrences(s.take(k), c) <= occurrences(s, c),
    decreases s.len() - k,
{
    if k == s.len() {
        assert(s.take(k) =~= s);
    } else {
        lemma_occurrences_take_succ(s, k);
        lemma_occurrences_take_le(s, k + 1);
    }
}

} // verus!
