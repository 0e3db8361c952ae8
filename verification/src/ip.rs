//! IP addresses as plain values: literal parsing and text rendering for
//! both families, specified over character sequences.

use vstd::prelude::*;
use crate::text::{is_dec_digit, dec_digit_val, dec_val, lemma_dec_val_step, dec_char, spec_dec_str, dec_string};

verus! {

/// An IPv4 address as four octets.
#[derive(Debug, Clone, Copy, PartialEq, Eq, Structural)]
pub struct Ipv4Addr {
    pub a: u8,
    pub b: u8,
    pub c: u8,
    pub d: u8,
}

/// An IPv6 address as eight 16-bit groups, most significant first.
#[derive(Debug, Clone, Copy, PartialEq, Eq, Structural)]
pub struct Ipv6Addr {
    pub g0: u16,
    pub g1: u16,
    pub g2: u16,
    pub g3: u16,
    pub g4: u16,
    pub g5: u16,
    pub g6: u16,
    pub g7: u16,
}

/// An IP address of either family.
#[derive(Debug, Clone, Copy, PartialEq, Eq, Structural)]
pub enum IpAddr {
    V4(Ipv4Addr),
    V6(Ipv6Addr),
}

impl Ipv6Addr {
    /// The eight groups as a sequence.
    pub open spec fn groups(self) -> Seq<u16> {
        seq![self.g0, self.g1, self.g2, self.g3, self.g4, self.g5, self.g6, self.g7]
    }

    /// Read one group by index.
    pub fn group(&self, i: usize) -> (r: u16)
        requires
            i < 8,
        ensures
            r == self.groups()[i as int],
    {
        if i == 0 {
            self.g0
        } else if i == 1 {
            self.g1
        } else if i == 2 {
            self.g2
        } else if i == 3 {
            self.g3
        } else if i == 4 {
            self.g4
        } else if i == 5 {
            self.g5
        } else if i == 6 {
            self.g6
        } else {
            self.g7
        }
    }

    /// Build an address from a sequence of eight groups.
    pub open spec fn from_groups(gs: Seq<u16>) -> Ipv6Addr {
        Ipv6Addr {
            g0: gs[0],
            g1: gs[1],
            g2: gs[2],
            g3: gs[3],
            g4: gs[4],
            g5: gs[5],
            g6: gs[6],
            g7: gs[7],
        }
    }
}

// ------------------------------------------------------------------
// IPv4 literal parsing
// ------------------------------------------------------------------

/// Length of the run of decimal digits starting at `i`.
pub open spec fn digits_from(s: Seq<char>, i: int) -> int
    decreases s.len() - i,
{
    if i < 0 || i >= s.len() || !is_dec_digit(s[i]) {
        0
    } else {
        1 + digits_from(s, i + 1)
    }
}

proof fn lemma_digits_from_bounds(s: Seq<char>, i: int)
    requires
        0 <= i <= s.len(),
    ensures
        0 <= digits_from(s, i) <= s.len() - i,
        forall|j: int| i <= j < i + digits_from(s, i) ==> is_dec_digit(#[trigger] s[j]),
        i + digits_from(s, i) < s.len() ==> !is_dec_digit(s[i + digits_from(s, i)]),
    decreases s.len() - i,
{
    if i < s.len() && is_dec_digit(s[i]) {
        lemma_digits_from_bounds(s, i + 1);
    }
}

/// What parsing a dotted-quad octet starting at `i` yields: the value and
/// the index just past the digits. One to three digits, value at most 255,
/// and no leading zero.
pub open spec fn octet_at(s: Seq<char>, i: int) -> Option<(u8, int)> {
    let l = digits_from(s, i);
    if 1 <= l <= 3 && dec_val(s.subrange(i, i + l)) <= 255 && (l > 1 ==> s[i] != '0') {
        Some((dec_val(s.subrange(i, i + l)) as u8, i + l))
    } else {
        None
    }
}

/// What parsing `s` as an IPv4 literal yields: four octets separated by
/// dots, spanning the whole string.
pub open spec fn spec_parse_ipv4(s: Seq<char>) -> Option<Ipv4Addr> {
    match octet_at(s, 0) {
        None => None,
        Some((a, i1)) => {
            if i1 < s.len() && s[i1] == '.' {
                match octet_at(s, i1 + 1) {
                    None => None,
                    Some((b, i2)) => {
                        if i2 < s.len() && s[i2] == '.' {
                            match octet_at(s, i2 + 1) {
                                None => None,
                                Some((c, i3)) => {
                                    if i3 < s.len() && s[i3] == '.' {
                                        match octet_at(s, i3 + 1) {
                                            None => None,
                                            Some((d, i4)) => {
                                                if i4 == s.len() {
                                                    Some(Ipv4Addr { a, b, c, d })
                                                } else {
                                                    None
                                                }
                                            },
                                        }
                                    } else {
                                        None
                                    }
                                },
                            }
                        } else {
                            None
                        }
                    },
                }
            } else {
                None
            }
        },
    }
}

/// Count the decimal digits starting at `i`.
fn digits_from_exec(s: &str, i: usize) -> (r: usize)
    requires
        i <= s@.len(),
    ensures
        r == digits_from(s@, i as int),
        i + r <= s@.len(),
    decreases s@.len() - i,
{
    proof {
        lemma_digits_from_bounds(s@, i as int);
    }
    if i == s.unicode_len() {
        0
    } else {
        let c = s.get_char(i);
        let cv = c as u32;
        if cv < 48 || cv > 57 {
            0
        } else {
            1 + digits_from_exec(s, i + 1)
        }
    }
}

/// Parse a dotted-quad octet starting at `i`.
fn octet_at_exec(s: &str, i: usize) -> (r: Option<(u8, usize)>)
    requires
        i <= s@.len(),
    ensures
        match r {
            Some((v, j)) => octet_at(s@, i as int) == Some((v, j as int)) && i < j <= s@.len(),
            None => octet_at(s@, i as int) is None,
        },
{
    let n = s.unicode_len();
    let l = digits_from_exec(s, i);
    proof {
        lemma_digits_from_bounds(s@, i as int);
    }
    if l < 1 || l > 3 {
        return None;
    }
    if l > 1 && s.get_char(i) == '0' {
        return None;
    }
    let mut acc: u32 = 0;
    let mut j: usize = i;
    while j < i + l
        invariant
            i <= j <= i + l,
            i + l <= n == s@.len(),
            l == digits_from(s@, i as int),
            l <= 3,
            forall|k: int| i <= k < i + l ==> is_dec_digit(#[trigger] s@[k]),
            acc == dec_val(s@.subrange(i as int, j as int)),
            acc <= 999,
        decreases i + l - j,
    {
        let c = s.get_char(j);
        let d: u32 = (c as u32) - 48;
        proof {
            lemma_dec_val_step(s@, i as int, j as int);
            assert(dec_val(s@.subrange(i as int, j as int)) <= 99) by {
                if j - i >= 2 {
                    assert(acc <= 999);
                    lemma_dec_val_len_bound(s@, i as int, j as int);
                } else {
                    lemma_dec_val_len_bound(s@, i as int, j as int);
                }
            }
        }
        acc = acc * 10 + d;
        j = j + 1;
    }
    if acc > 255 {
        return None;
    }
    Some((acc as u8, i + l))
}

/// A run of at most `n` digits has value below `10^n` (stated for the
/// lengths that octets and groups use).
proof fn lemma_dec_val_len_bound(s: Seq<char>, a: int, b: int)
    requires
        0 <= a <= b <= s.len(),
        b - a <= 3,
        forall|k: int| a <= k < b ==> is_dec_digit(#[trigger] s[k]),
    ensures
        b - a <= 0 ==> dec_val(s.subrange(a, b)) == 0,
        b - a <= 1 ==> dec_val(s.subrange(a, b)) <= 9,
        b - a <= 2 ==> dec_val(s.subrange(a, b)) <= 99,
        b - a <= 3 ==> dec_val(s.subrange(a, b)) <= 999,
    decreases b - a,
{
    if b > a {
        lemma_dec_val_len_bound(s, a, b - 1);
        lemma_dec_val_step(s, a, b - 1);
    } else {
        assert(s.subrange(a, b) =~= Seq::<char>::empty());
    }
}

/// Parse an IPv4 literal.
pub fn parse_ipv4(s: &str) -> (r: Option<Ipv4Addr>)
    ensures
        r == spec_parse_ipv4(s@),
{
    let n = s.unicode_len();
    let r1 = octet_at_exec(s, 0);
    match r1 {
        None => None,
        Some((a, i1)) => {
            if i1 < n && s.get_char(i1) == '.' {
                match octet_at_exec(s, i1 + 1) {
                    None => None,
                    Some((b, i2)) => {
                        if i2 < n && s.get_char(i2) == '.' {
                            match octet_at_exec(s, i2 + 1) {
                                None => None,
                                Some((c, i3)) => {
                                    if i3 < n && s.get_char(i3) == '.' {
                                        match octet_at_exec(s, i3 + 1) {
                                            None => None,
                                            Some((d, i4)) => {
                                                if i4 == n {
                                                    Some(Ipv4Addr { a, b, c, d })
                                                } else {
                                                    None
                                                }
                                            },
                                        }
                                    } else {
                                        None
                                    }
                                },
                            }
                        } else {
                            None
                        }
                    },
                }
            } else {
                None
            }
        },
    }
}

// ------------------------------------------------------------------
// IPv6 literal parsing
// ------------------------------------------------------------------

/// Is `c` a hexadecimal digit?
pub open spec fn is_hex_digit(c: char) -> bool {
    is_dec_digit(c) || (97 <= c as u32 <= 102) || (65 <= c as u32 <= 70)
}

/// The numeric value of a hexadecimal digit character.
pub open spec fn hex_digit_val(c: char) -> nat {
    if is_dec_digit(c) {
        dec_digit_val(c)
    } else if 97 <= c as u32 <= 102 {
        (c as u32 - 87) as nat
    } else {
        (c as u32 - 55) as nat
    }
}

/// The value of a sequence of hexadecimal digits, most significant first.
pub open spec fn hex_val(s: Seq<char>) -> nat
    decreases s.len(),
{
    if s.len() == 0 {
        0
    } else {
        hex_val(s.drop_last()) * 16 + hex_digit_val(s.last())
    }
}

proof fn lemma_hex_val_step(s: Seq<char>, a: int, i: int)
    requires
        0 <= a <= i < s.len(),
    ensures
        hex_val(s.subrange(a, i + 1)) == hex_val(s.subrange(a, i)) * 16 + hex_digit_val(s[i]),
{
    let t = s.subrange(a, i + 1);
    assert(t.drop_last() =~= s.subrange(a, i));
    assert(t.last() == s[i]);
}

proof fn lemma_hex_val_len_bound(s: Seq<char>, a: int, b: int)
    requires
        0 <= a <= b <= s.len(),
        b - a <= 4,
        forall|k: int| a <= k < b ==> is_hex_digit(#[trigger] s[k]),
    ensures
        b - a <= 0 ==> hex_val(s.subrange(a, b)) == 0,
        b - a <= 1 ==> hex_val(s.subrange(a, b)) <= 0xf,
        b - a <= 2 ==> hex_val(s.subrange(a, b)) <= 0xff,
        b - a <= 3 ==> hex_val(s.subrange(a, b)) <= 0xfff,
        b - a <= 4 ==> hex_val(s.subrange(a, b)) <= 0xffff,
    decreases b - a,
{
    if b > a {
        lemma_hex_val_len_bound(s, a, b - 1);
        lemma_hex_val_step(s, a, b - 1);
    } else {
        assert(s.subrange(a, b) =~= Seq::<char>::empty());
    }
}

/// Length of the run of hexadecimal digits starting at `i`, stopping at `end`.
pub open spec fn hex_from(s: Seq<char>, i: int, end: int) -> int
    decreases end - i,
{
    if i < 0 || i >= end || i >= s.len() || !is_hex_digit(s[i]) {
        0
    } else {
        1 + hex_from(s, i + 1, end)
    }
}

proof fn lemma_hex_from_bounds(s: Seq<char>, i: int, end: int)
    requires
        0 <= i <= end <= s.len(),
    ensures
        0 <= hex_from(s, i, end) <= end - i,
        forall|j: int| i <= j < i + hex_from(s, i, end) ==> is_hex_digit(#[trigger] s[j]),
        i + hex_from(s, i, end) < end ==> !is_hex_digit(s[i + hex_from(s, i, end)]),
    decreases end - i,
{
    if i < end && is_hex_digit(s[i]) {
        lemma_hex_from_bounds(s, i + 1, end);
    }
}

/// What parsing one colon-separated group inside `[i, end)` yields: its
/// value and the index just past its digits. One to four hexadecimal digits.
pub open spec fn group_at(s: Seq<char>, i: int, end: int) -> Option<(u16, int)> {
    let l = hex_from(s, i, end);
    if 1 <= l <= 4 {
        Some((hex_val(s.subrange(i, i + l)) as u16, i + l))
    } else {
        None
    }
}

/// What parsing the plain colon-separated group list that spans `[i, end)`
/// yields.
pub open spec fn glist_from(s: Seq<char>, i: int, end: int) -> Option<Seq<u16>>
    decreases end - i,
{
    match group_at(s, i, end) {
        None => None,
        Some((g, j)) => {
            if j == end {
                Some(seq![g])
            } else if s[j] == ':' && j + 1 <= end {
                match glist_from(s, j + 1, end) {
                    None => None,
                    Some(rest) => Some(seq![g] + rest),
                }
            } else {
                None
            }
        },
    }
}

/// The position of the first `"::"` in `s` at or after `i`, if any.
pub open spec fn dc_from(s: Seq<char>, i: int) -> Option<int>
    decreases s.len() - i,
{
    if i < 0 || i + 1 >= s.len() {
        None
    } else if s[i] == ':' && s[i + 1] == ':' {
        Some(i)
    } else {
        dc_from(s, i + 1)
    }
}

/// A sequence of `n` zero groups.
pub open spec fn zero_groups(n: int) -> Seq<u16> {
    Seq::new(n as nat, |i: int| 0u16)
}

/// What parsing `s` as an IPv6 literal yields. Without `"::"` the string
/// must be exactly eight groups; with one `"::"` the groups on either side
/// (at most seven in all) are padded with zero groups in between.
pub open spec fn spec_parse_ipv6(s: Seq<char>) -> Option<Ipv6Addr> {
    match dc_from(s, 0) {
        None => match glist_from(s, 0, s.len() as int) {
            Some(gs) => if gs.len() == 8 {
                Some(Ipv6Addr::from_groups(gs))
            } else {
                None
            },
            None => None,
        },
        Some(i) => {
            let left = if i == 0 {
                Some(Seq::<u16>::empty())
            } else {
                glist_from(s, 0, i)
            };
            let right = if i + 2 == s.len() {
                Some(Seq::<u16>::empty())
            } else {
                glist_from(s, i + 2, s.len() as int)
            };
            match (left, right) {
                (Some(lg), Some(rg)) => {
                    if lg.len() + rg.len() <= 7 {
                        Some(Ipv6Addr::from_groups(lg + zero_groups(8 - lg.len() - rg.len()) + rg))
                    } else {
                        None
                    }
                },
                _ => None,
            }
        },
    }
}

/// Count the hexadecimal digits starting at `i`, stopping at `end`.
fn hex_from_exec(s: &str, i: usize, end: usize) -> (r: usize)
    requires
        i <= end <= s@.len(),
    ensures
        r == hex_from(s@, i as int, end as int),
        i + r <= end,
    decreases end - i,
{
    proof {
        lemma_hex_from_bounds(s@, i as int, end as int);
    }
    if i == end {
        0
    } else {
        let c = s.get_char(i);
        let cv = c as u32;
        let is_hex = (48 <= cv && cv <= 57) || (97 <= cv && cv <= 102) || (65 <= cv && cv <= 70);
        if !is_hex {
            0
        } else {
            1 + hex_from_exec(s, i + 1, end)
        }
    }
}

/// Parse one group inside `[i, end)`.
fn group_at_exec(s: &str, i: usize, end: usize) -> (r: Option<(u16, usize)>)
    requires
        i <= end <= s@.len(),
    ensures
        match r {
            Some((v, j)) => group_at(s@, i as int, end as int) == Some((v, j as int)) && i < j
                <= end,
            None => group_at(s@, i as int, end as int) is None,
        },
{
    let n = s.unicode_len();
    let l = hex_from_exec(s, i, end);
    proof {
        lemma_hex_from_bounds(s@, i as int, end as int);
    }
    if l < 1 || l > 4 {
        return None;
    }
    let mut acc: u32 = 0;
    let mut j: usize = i;
    while j < i + l
        invariant
            i <= j <= i + l,
            i + l <= end <= n == s@.len(),
            l == hex_from(s@, i as int, end as int),
            l <= 4,
            forall|k: int| i <= k < i + l ==> is_hex_digit(#[trigger] s@[k]),
            acc == hex_val(s@.subrange(i as int, j as int)),
            acc <= 0xffff,
        decreases i + l - j,
    {
        let c = s.get_char(j);
        let cv = c as u32;
        let d: u32 = if 48 <= cv && cv <= 57 {
            cv - 48
        } else if 97 <= cv && cv <= 102 {
            cv - 87
        } else {
            cv - 55
        };
        proof {
            lemma_hex_val_step(s@, i as int, j as int);
            lemma_hex_val_len_bound(s@, i as int, j as int);
        }
        acc = acc * 16 + d;
        j = j + 1;
    }
    Some((acc as u16, i + l))
}

/// Find the first `"::"` at or after `i`.
fn dc_from_exec(s: &str, i: usize) -> (r: Option<usize>)
    requires
        i <= s@.len(),
    ensures
        match r {
            Some(j) => dc_from(s@, i as int) == Some(j as int) && i <= j && j + 1 < s@.len(),
            None => dc_from(s@, i as int) is None,
        },
    decreases s@.len() - i,
{
    let n = s.unicode_len();
    if i >= n || i == n - 1 {
        None
    } else if s.get_char(i) == ':' && s.get_char(i + 1) == ':' {
        Some(i)
    } else {
        dc_from_exec(s, i + 1)
    }
}

/// Parse the plain group list spanning `[i, end)` into `out`.
fn glist_exec(s: &str, i: usize, end: usize) -> (r: Option<Vec<u16>>)
    requires
        i <= end <= s@.len(),
    ensures
        match r {
            Some(v) => glist_from(s@, i as int, end as int) == Some(v@),
            None => glist_from(s@, i as int, end as int) is None,
        },
    decreases end - i,
{
    match group_at_exec(s, i, end) {
        None => None,
        Some((g, j)) => {
            if j == end {
                let mut v: Vec<u16> = Vec::new();
                v.push(g);
                proof {
                    assert(v@ =~= seq![g]);
                }
                Some(v)
            } else if s.get_char(j) == ':' {
                match glist_exec(s, j + 1, end) {
                    None => None,
                    Some(rest) => {
                        let mut v: Vec<u16> = Vec::new();
                        v.push(g);
                        let mut rest = rest;
                        let mut k: usize = 0;
                        let rn = rest.len();
                        while k < rn
                            invariant
                                k <= rn == rest.len(),
                                v@ =~= seq![g] + rest@.subrange(0, k as int),
                            decreases rn - k,
                        {
                            v.push(rest[k]);
                            k = k + 1;
                        }
                        proof {
                            assert(rest@.subrange(0, rn as int) =~= rest@);
                        }
                        Some(v)
                    },
                }
            } else {
                None
            }
        },
    }
}

/// Parse an IPv6 literal.
pub fn parse_ipv6(s: &str) -> (r: Option<Ipv6Addr>)
    ensures
        r == spec_parse_ipv6(s@),
{
    let n = s.unicode_len();
    match dc_from_exec(s, 0) {
        None => {
            match glist_exec(s, 0, n) {
                None => None,
                Some(gs) => {
                    if gs.len() == 8 {
                        Some(groups_to_addr(&gs))
                    } else {
                        None
                    }
                },
            }
        },
        Some(i) => {
            let left: Option<Vec<u16>> = if i == 0 {
                Some(Vec::new())
            } else {
                glist_exec(s, 0, i)
            };
            let right: Option<Vec<u16>> = if i + 2 == n {
                Some(Vec::new())
            } else {
                glist_exec(s, i + 2, n)
            };
            match (left, right) {
                (Some(lg), Some(rg)) => {
                    if lg.len() < 8 && rg.len() <= 7 - lg.len() {
                        let fill = 8 - lg.len() - rg.len();
                        let mut v: Vec<u16> = Vec::new();
                        let mut k: usize = 0;
                        while k < lg.len()
                            invariant
                                k <= lg.len(),
                                v@ =~= lg@.subrange(0, k as int),
                            decreases lg.len() - k,
                        {
                            v.push(lg[k]);
                            k = k + 1;
                        }
                        let mut z: usize = 0;
                        while z < fill
                            invariant
                                z <= fill,
                                fill == 8 - lg.len() - rg.len(),
                                v@ =~= lg@.subrange(0, lg.len() as int) + zero_groups(z as int),
                            decreases fill - z,
                        {
                            v.push(0);
                            proof {
                                assert(zero_groups(z as int).push(0u16) =~= zero_groups(
                                    z as int + 1,
                                ));
                            }
                            z = z + 1;
                        }
                        let mut k2: usize = 0;
                        while k2 < rg.len()
                            invariant
                                k2 <= rg.len(),
                                fill == 8 - lg.len() - rg.len(),
                                v@ =~= lg@.subrange(0, lg.len() as int) + zero_groups(fill as int)
                                    + rg@.subrange(0, k2 as int),
                            decreases rg.len() - k2,
                        {
                            v.push(rg[k2]);
                            k2 = k2 + 1;
                        }
                        proof {
                            assert(lg@.subrange(0, lg.len() as int) =~= lg@);
                            assert(rg@.subrange(0, rg.len() as int) =~= rg@);
                            assert(v@ =~= lg@ + zero_groups(fill as int) + rg@);
                        }
                        Some(groups_to_addr(&v))
                    } else {
                        None
                    }
                },
                _ => None,
            }
        },
    }
}

/// Build the address struct out of eight parsed groups.
fn groups_to_addr(v: &Vec<u16>) -> (r: Ipv6Addr)
    requires
        v@.len() == 8,
    ensures
        r == Ipv6Addr::from_groups(v@),
        r.groups() =~= v@,
{
    Ipv6Addr {
        g0: v[0],
        g1: v[1],
        g2: v[2],
        g3: v[3],
        g4: v[4],
        g5: v[5],
        g6: v[6],
        g7: v[7],
    }
}

// ------------------------------------------------------------------
// Parsing either family
// ------------------------------------------------------------------

/// What parsing `s` as an IP literal of either family yields: the IPv4
/// form is tried first, then the IPv6 form.
pub open spec fn spec_parse_ip(s: Seq<char>) -> Option<IpAddr> {
    match spec_parse_ipv4(s) {
        Some(v4) => Some(IpAddr::V4(v4)),
        None => match spec_parse_ipv6(s) {
            Some(v6) => Some(IpAddr::V6(v6)),
            None => None,
        },
    }
}

/// Parse an IP literal of either family.
pub fn parse_ip(s: &str) -> (r: Option<IpAddr>)
    ensures
        r == spec_parse_ip(s@),
{
    match parse_ipv4(s) {
        Some(v4) => Some(IpAddr::V4(v4)),
        None => match parse_ipv6(s) {
            Some(v6) => Some(IpAddr::V6(v6)),
            None => None,
        },
    }
}

// ------------------------------------------------------------------
// Text rendering
// ------------------------------------------------------------------

/// The dotted-quad rendering of an IPv4 address.
pub open spec fn spec_ipv4_str(a: Ipv4Addr) -> Seq<char> {
    spec_dec_str(a.a as nat) + seq!['.'] + spec_dec_str(a.b as nat) + seq!['.'] + spec_dec_str(
        a.c as nat,
    ) + seq!['.'] + spec_dec_str(a.d as nat)
}

/// Render an IPv4 address as a dotted quad.
pub fn ipv4_string(a: &Ipv4Addr) -> (r: String)
    ensures
        r@ == spec_ipv4_str(*a),
{
    proof {
        reveal_strlit(".");
    }
    let mut s = dec_string(a.a as u64);
    s.append(".");
    let sb = dec_string(a.b as u64);
    s.append(sb.as_str());
    s.append(".");
    let sc = dec_string(a.c as u64);
    s.append(sc.as_str());
    s.append(".");
    let sd = dec_string(a.d as u64);
    s.append(sd.as_str());
    proof {
        assert(s@ =~= spec_ipv4_str(*a));
    }
    s
}

/// The lowercase hexadecimal digit character for a value below sixteen.
pub open spec fn hex_char(d: nat) -> char {
    if d < 10 {
        dec_char(d)
    } else if d == 10 {
        'a'
    } else if d == 11 {
        'b'
    } else if d == 12 {
        'c'
    } else if d == 13 {
        'd'
    } else if d == 14 {
        'e'
    } else {
        'f'
    }
}

/// The lowercase hexadecimal rendering of `n`, with no leading zeros.
pub open spec fn spec_hex_str(n: nat) -> Seq<char>
    decreases n,
{
    if n < 16 {
        seq![hex_char(n)]
    } else {
        spec_hex_str(n / 16).push(hex_char(n % 16))
    }
}

/// The one-character string for a hexadecimal digit.
fn hex_digit_str(d: u16) -> (r: &'static str)
    requires
        d < 16,
    ensures
        r@ =~= seq![hex_char(d as nat)],
{
    proof {
        reveal_strlit("0");
        reveal_strlit("1");
        reveal_strlit("2");
        reveal_strlit("3");
        reveal_strlit("4");
        reveal_strlit("5");
        reveal_strlit("6");
        reveal_strlit("7");
        reveal_strlit("8");
        reveal_strlit("9");
        reveal_strlit("a");
        reveal_strlit("b");
        reveal_strlit("c");
        reveal_strlit("d");
        reveal_strlit("e");
        reveal_strlit("f");
    }
    if d == 0 {
        "0"
    } else if d == 1 {
        "1"
    } else if d == 2 {
        "2"
    } else if d == 3 {
        "3"
    } else if d == 4 {
        "4"
    } else if d == 5 {
        "5"
    } else if d == 6 {
        "6"
    } else if d == 7 {
        "7"
    } else if d == 8 {
        "8"
    } else if d == 9 {
        "9"
    } else if d == 10 {
        "a"
    } else if d == 11 {
        "b"
    } else if d == 12 {
        "c"
    } else if d == 13 {
        "d"
    } else if d == 14 {
        "e"
    } else {
        "f"
    }
}

/// Render `n` in lowercase hexadecimal.
pub fn hex_string(n: u16) -> (r: String)
    ensures
        r@ == spec_hex_str(n as nat),
    decreases n,
{
    if n < 16 {
        String::from_str(hex_digit_str(n))
    } else {
        let q = hex_string(n / 16);
        let r = q.concat(hex_digit_str(n % 16));
        proof {
            assert(r@ =~= spec_hex_str((n / 16) as nat).push(hex_char((n % 16) as nat)));
        }
        r
    }
}

/// Length of the run of zero groups starting at `i`.
pub open spec fn zrun_at(gs: Seq<u16>, i: int) -> int
    decreases gs.len() - i,
{
    if i < 0 || i >= gs.len() || gs[i] != 0 {
        0
    } else {
        1 + zrun_at(gs, i + 1)
    }
}

proof fn lemma_zrun_bounds(gs: Seq<u16>, i: int)
    requires
        0 <= i <= gs.len(),
    ensures
        0 <= zrun_at(gs, i) <= gs.len() - i,
    decreases gs.len() - i,
{
    if i < gs.len() && gs[i] == 0 {
        lemma_zrun_bounds(gs, i + 1);
    }
}

/// The first longest run of zero groups at or after `i`, given the best
/// run `(bs, bl)` seen so far. A later run wins only if strictly longer.
pub open spec fn best_run(gs: Seq<u16>, i: int, bs: int, bl: int) -> (int, int)
    decreases gs.len() - i,
{
    if i < 0 || i >= gs.len() {
        (bs, bl)
    } else {
        let l = zrun_at(gs, i);
        if l > bl {
            best_run(gs, i + 1, i, l)
        } else {
            best_run(gs, i + 1, bs, bl)
        }
    }
}

/// The first longest run of zero groups in an address.
pub open spec fn ipv6_zero_run(a: Ipv6Addr) -> (int, int) {
    best_run(a.groups(), 0, 0, 0)
}

proof fn lemma_best_run_bounds(gs: Seq<u16>, i: int, bs: int, bl: int)
    requires
        0 <= i <= gs.len(),
        0 <= bs,
        0 <= bl,
        bs + bl <= gs.len(),
    ensures
        0 <= best_run(gs, i, bs, bl).0,
        0 <= best_run(gs, i, bs, bl).1,
        best_run(gs, i, bs, bl).0 + best_run(gs, i, bs, bl).1 <= gs.len(),
    decreases gs.len() - i,
{
    if i < gs.len() {
        lemma_zrun_bounds(gs, i);
        let l = zrun_at(gs, i);
        if l > bl {
            lemma_best_run_bounds(gs, i + 1, i, l);
        } else {
            lemma_best_run_bounds(gs, i + 1, bs, bl);
        }
    }
}

/// Count the zero groups starting at `i`.
fn zrun_exec(a: &Ipv6Addr, i: usize) -> (r: usize)
    requires
        i <= 8,
    ensures
        r == zrun_at(a.groups(), i as int),
        i + r <= 8,
    decreases 8 - i,
{
    proof {
        lemma_zrun_bounds(a.groups(), i as int);
    }
    if i == 8 {
        0
    } else if a.group(i) != 0 {
        0
    } else {
        1 + zrun_exec(a, i + 1)
    }
}

/// Find the first longest run of zero groups.
fn best_run_exec(a: &Ipv6Addr) -> (r: (usize, usize))
    ensures
        (r.0 as int, r.1 as int) == ipv6_zero_run(*a),
        r.0 + r.1 <= 8,
{
    let mut bs: usize = 0;
    let mut bl: usize = 0;
    let mut i: usize = 0;
    while i < 8
        invariant
            i <= 8,
            bs + bl <= 8,
            best_run(a.groups(), i as int, bs as int, bl as int) == ipv6_zero_run(*a),
        decreases 8 - i,
    {
        let l = zrun_exec(a, i);
        if l > bl {
            bs = i;
            bl = l;
        }
        i = i + 1;
    }
    (bs, bl)
}

/// The colon-joined hexadecimal rendering of a sequence of groups.
pub open spec fn spec_join_hex(gs: Seq<u16>) -> Seq<char>
    decreases gs.len(),
{
    if gs.len() == 0 {
        Seq::<char>::empty()
    } else if gs.len() == 1 {
        spec_hex_str(gs[0] as nat)
    } else {
        spec_hex_str(gs[0] as nat) + seq![':'] + spec_join_hex(gs.drop_first())
    }
}

/// Render the groups `[from, to)` joined with colons.
fn join_hex(a: &Ipv6Addr, from: usize, to: usize) -> (r: String)
    requires
        from <= to <= 8,
    ensures
        r@ == spec_join_hex(a.groups().subrange(from as int, to as int)),
    decreases to - from,
{
    if from == to {
        let r = String::new();
        proof {
            assert(a.groups().subrange(from as int, to as int) =~= Seq::<u16>::empty());
        }
        r
    } else if from + 1 == to {
        let r = hex_string(a.group(from));
        proof {
            assert(a.groups().subrange(from as int, to as int) =~= seq![
                a.groups()[from as int],
            ]);
        }
        r
    } else {
        proof {
            reveal_strlit(":");
        }
        let mut s = hex_string(a.group(from));
        s.append(":");
        let rest = join_hex(a, from + 1, to);
        s.append(rest.as_str());
        proof {
            let sub = a.groups().subrange(from as int, to as int);
            assert(sub.drop_first() =~= a.groups().subrange(from as int + 1, to as int));
            assert(s@ =~= spec_join_hex(sub));
        }
        s
    }
}

/// The rendering of an IPv6 address: groups joined with colons, with the
/// first longest run of two or more zero groups compressed to `"::"`.
pub open spec fn spec_ipv6_str(a: Ipv6Addr) -> Seq<char> {
    let r = ipv6_zero_run(a);
    if r.1 >= 2 {
        spec_join_hex(a.groups().subrange(0, r.0)) + seq![':', ':'] + spec_join_hex(
            a.groups().subrange(r.0 + r.1, 8),
        )
    } else {
        spec_join_hex(a.groups())
    }
}

/// Render an IPv6 address.
pub fn ipv6_string(a: &Ipv6Addr) -> (r: String)
    ensures
        r@ == spec_ipv6_str(*a),
{
    let (bs, bl) = best_run_exec(a);
    if bl >= 2 {
        proof {
            reveal_strlit("::");
        }
        let mut s = join_hex(a, 0, bs);
        s.append("::");
        let tail = join_hex(a, bs + bl, 8);
        s.append(tail.as_str());
        proof {
            assert(s@ =~= spec_ipv6_str(*a));
        }
        s
    } else {
        let r = join_hex(a, 0, 8);
        proof {
            assert(a.groups().subrange(0, 8) =~= a.groups());
        }
        r
    }
}

/// The rendering of an address of either family.
pub open spec fn spec_ip_str(a: IpAddr) -> Seq<char> {
    match a {
        IpAddr::V4(v4) => spec_ipv4_str(v4),
        IpAddr::V6(v6) => spec_ipv6_str(v6),
    }
}

/// Render an address of either family.
pub fn ip_to_string(a: &IpAddr) -> (r: String)
    ensures
        r@ == spec_ip_str(*a),
{
    match a {
        IpAddr::V4(v4) => ipv4_string(v4),
        IpAddr::V6(v6) => ipv6_string(v6),
    }
}

} // verus!
